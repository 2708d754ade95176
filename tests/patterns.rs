use wfc_image::compatibility::are_patterns_compatible;
use wfc_image::geometry::{CardinalDirection, Coord, Orientation, Size};
use wfc_image::grid::{Grid, TiledGridSlice};
use wfc_image::overlapping::{InputError, OverlappingPatterns};

fn grid_of(width: u32, height: u32, cells: Vec<u32>) -> Grid {
    Grid::from_cells(Size::new(width, height), cells).unwrap()
}

fn slice_at(x: u32, y: u32, size: u32) -> TiledGridSlice {
    TiledGridSlice::new(Coord::new(x, y), size, Orientation::Original)
}

#[test]
fn compatibile_patterns() {
    let r = 0;
    let b = 1;
    let array = [[r, b, b], [b, r, b]];
    let mut cells = Vec::new();
    for row in array.iter() {
        for &v in row.iter() {
            cells.push(v);
        }
    }
    let grid = grid_of(3, 2, cells);
    let pattern_size = 2;
    assert!(are_patterns_compatible(
        &grid,
        &slice_at(0, 0, pattern_size),
        &slice_at(1, 0, pattern_size),
        CardinalDirection::East,
    ));
    assert!(are_patterns_compatible(
        &grid,
        &slice_at(0, 0, pattern_size),
        &slice_at(1, 0, pattern_size),
        CardinalDirection::North,
    ));
    assert!(!are_patterns_compatible(
        &grid,
        &slice_at(0, 0, pattern_size),
        &slice_at(1, 0, pattern_size),
        CardinalDirection::South,
    ));
    assert!(!are_patterns_compatible(
        &grid,
        &slice_at(0, 0, pattern_size),
        &slice_at(1, 0, pattern_size),
        CardinalDirection::West,
    ));
}

#[test]
fn single_cell_patterns_are_always_compatible() {
    let grid = grid_of(2, 2, vec![1, 2, 3, 4]);
    for d in CardinalDirection::all() {
        assert!(are_patterns_compatible(&grid, &slice_at(0, 0, 1), &slice_at(1, 1, 1), d));
    }
}

#[test]
fn opposite_directions_agree_on_extracted_patterns() {
    let grid = grid_of(3, 3, vec![1, 2, 2, 2, 1, 3, 3, 3, 1]);
    let p = OverlappingPatterns::new_all_orientations(grid, 2).unwrap();
    let n = p.pattern_table.len();
    for i in 0..n {
        for j in 0..n {
            for d in CardinalDirection::all() {
                let a = &p.pattern_table[i];
                let b = &p.pattern_table[j];
                let ab = p.compatible_patterns(a, d).contains(&j);
                let ba = p.compatible_patterns(b, d.opposite()).contains(&i);
                assert_eq!(ab, ba);
            }
        }
    }
}

#[test]
fn compatibility_reads_only_tile_contents() {
    // the tiles at (0, 0) and (2, 0) hold the same samples
    let grid = grid_of(4, 2, vec![5, 6, 5, 6, 7, 8, 7, 8]);
    let other = slice_at(1, 0, 2);
    for d in CardinalDirection::all() {
        let first = are_patterns_compatible(&grid, &slice_at(0, 0, 2), &other, d);
        let second = are_patterns_compatible(&grid, &slice_at(2, 0, 2), &other, d);
        assert_eq!(first, second);
        assert_eq!(first, are_patterns_compatible(&grid, &slice_at(0, 0, 2), &other, d));
    }
}

#[test]
fn distinct_tiles_get_distinct_contiguous_ids() {
    // a 2x2 checkerboard has two distinct 2x2 tiles under the original orientation
    let grid = grid_of(2, 2, vec![0, 1, 1, 0]);
    let p = OverlappingPatterns::new_original_orientation(grid, 2).unwrap();
    assert_eq!(p.pattern_table.len(), 2);
    for (i, pattern) in p.pattern_table.iter().enumerate() {
        assert_eq!(pattern.id, i);
    }
    assert_eq!(p.pattern_table[0].count, 2);
    assert_eq!(p.pattern_table[1].count, 2);
    assert_eq!(p.pattern_table[0].coords, vec![Coord::new(0, 0), Coord::new(1, 1)]);
    assert_eq!(p.pattern_table[1].coords, vec![Coord::new(1, 0), Coord::new(0, 1)]);
    assert_eq!(p.id_grid_original_orientation(), vec![0, 1, 1, 0]);
}

#[test]
fn all_orientations_of_a_stripe_merge() {
    // vertical stripes: rotations give horizontal stripes, flips give the same tiles
    let grid = grid_of(2, 2, vec![0, 1, 0, 1]);
    let p = OverlappingPatterns::new_all_orientations(grid, 2).unwrap();
    let total: u32 = p.pattern_table.iter().map(|pat| pat.count).sum();
    assert_eq!(total, 32);
    assert_eq!(p.pattern_table.len(), 4);
}

#[test]
fn extraction_is_deterministic() {
    let cells = vec![1, 2, 3, 4, 5, 6, 7, 8, 9, 1, 2, 3];
    let a = OverlappingPatterns::new_all_orientations(grid_of(4, 3, cells.clone()), 2).unwrap();
    let b = OverlappingPatterns::new_all_orientations(grid_of(4, 3, cells), 2).unwrap();
    assert_eq!(a.pattern_table.len(), b.pattern_table.len());
    for (x, y) in a.pattern_table.iter().zip(b.pattern_table.iter()) {
        assert_eq!(x.id, y.id);
        assert_eq!(x.coords, y.coords);
        assert_eq!(x.count, y.count);
        assert_eq!(x.orientation, y.orientation);
    }
    assert_eq!(a.id_grid, b.id_grid);
}

#[test]
fn malformed_input_is_rejected() {
    let os = vec![Orientation::Original];
    let g = || grid_of(2, 2, vec![0, 1, 1, 0]);
    assert!(matches!(OverlappingPatterns::new(g(), 0, &os), Err(InputError::PatternSizeZero)));
    assert!(matches!(OverlappingPatterns::new(g(), 3, &os), Err(InputError::PatternLargerThanGrid)));
    assert!(matches!(OverlappingPatterns::new(g(), 2, &Vec::new()), Err(InputError::NoOrientations)));
}

#[test]
fn grid_wraps_around() {
    let grid = grid_of(3, 2, vec![1, 2, 3, 4, 5, 6]);
    assert_eq!(grid.get_tiled(0, 0), 1);
    assert_eq!(grid.get_tiled(3, 0), 1);
    assert_eq!(grid.get_tiled(4, 3), 5);
    assert!(Grid::from_cells(Size::new(2, 2), vec![1, 2, 3]).is_none());
    assert!(Grid::from_cells(Size::new(0, 2), vec![]).is_none());
}

#[test]
fn orientations_read_the_expected_cells() {
    let grid = grid_of(2, 2, vec![1, 2, 3, 4]);
    let top_left = |o| TiledGridSlice::new(Coord::new(0, 0), 2, o).get_checked(&grid, 0, 0);
    assert_eq!(top_left(Orientation::Original), 1);
    assert_eq!(top_left(Orientation::Clockwise90), 3);
    assert_eq!(top_left(Orientation::Clockwise180), 4);
    assert_eq!(top_left(Orientation::Clockwise270), 2);
    assert_eq!(top_left(Orientation::DiagonallyFlipped), 1);
    let content = TiledGridSlice::new(Coord::new(0, 0), 2, Orientation::DiagonallyFlipped).content(&grid);
    assert_eq!(content, vec![1, 3, 2, 4]);
    assert_eq!(
        Orientation::all(),
        vec![
            Orientation::Original,
            Orientation::Clockwise90,
            Orientation::Clockwise180,
            Orientation::Clockwise270,
            Orientation::DiagonallyFlipped,
            Orientation::DiagonallyFlippedClockwise90,
            Orientation::DiagonallyFlippedClockwise180,
            Orientation::DiagonallyFlippedClockwise270,
        ]
    );
}

#[test]
fn global_stats_weights_and_neighbours() {
    let grid = grid_of(2, 2, vec![0, 1, 1, 0]);
    let mut p = OverlappingPatterns::new_original_orientation(grid, 2).unwrap();
    let stats = p.global_stats();
    assert_eq!(stats.pattern_descriptions.len(), 2);
    assert_eq!(stats.pattern_descriptions[0].weight, Some(2));
    // checkerboard tiles alternate in every direction
    let n0 = &stats.pattern_descriptions[0].allowed_neighbours;
    assert_eq!(n0.north, vec![1]);
    assert_eq!(n0.east, vec![1]);
    assert_eq!(n0.south, vec![1]);
    assert_eq!(n0.west, vec![1]);
    p.pattern_mut(0).clear_count();
    assert_eq!(p.pattern_descriptions()[0].weight, None);
    assert_eq!(p.pattern_top_left_value(1), 1);
    assert_eq!(p.id_at(1, Orientation::Original), Some(1));
    assert_eq!(p.id_at(1, Orientation::Clockwise90), None);
    assert_eq!(p.id_grid().len(), 32);
}
