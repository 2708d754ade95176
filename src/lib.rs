//! Overlapping-pattern model for wave function collapse image synthesis:
//! pattern extraction, adjacency compatibility, solver statistics, image
//! reconstruction and retry policies.

pub mod geometry;
pub mod grid;
pub mod compatibility;
pub mod pattern_index;
pub mod model;
pub mod overlapping;
pub mod image_patterns;
pub mod retry;
