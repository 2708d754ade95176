use wfc_image::geometry::{Orientation, Size};
use wfc_image::grid::Grid;
use wfc_image::image_patterns::{channels, rgba, EnumerateCompatiblePatternWeights, ImagePatterns, Wave};
use wfc_image::retry::{Forever, ImageRetry, NumTimes, ParNumTimes, PropagateError, Retry};

fn two_reds() -> ImagePatterns {
    let a = rgba(10, 0, 0, 255);
    let b = rgba(30, 0, 0, 255);
    let grid = Grid::from_cells(Size::new(2, 1), vec![a, b]).unwrap();
    ImagePatterns::new(grid, 1, &vec![Orientation::Original]).unwrap()
}

#[test]
fn packing_keeps_channels() {
    let c = rgba(1, 2, 3, 4);
    assert_eq!(c, 0x04030201);
    assert_eq!(channels(c), (1, 2, 3, 4));
}

#[test]
fn weighted_average_of_two_reds() {
    let p = two_reds();
    let cell = EnumerateCompatiblePatternWeights::CompatiblePatternsWithWeights(vec![(0, 1), (1, 1)]);
    assert_eq!(channels(p.weighted_average_colour(&cell)), (20, 0, 0, 255));
}

#[test]
fn weighted_average_respects_weights() {
    let p = two_reds();
    let cell = EnumerateCompatiblePatternWeights::CompatiblePatternsWithWeights(vec![(0, 3), (1, 1)]);
    // (10 * 3 + 30) / 4 = 15
    assert_eq!(channels(p.weighted_average_colour(&cell)), (15, 0, 0, 255));
}

#[test]
fn weighted_average_without_patterns_is_empty_colour() {
    let mut p = two_reds();
    let empty = rgba(1, 2, 3, 4);
    p.set_empty_colour(empty);
    let none = EnumerateCompatiblePatternWeights::NoCompatiblePattern;
    assert_eq!(p.weighted_average_colour(&none), empty);
    let no_weights = EnumerateCompatiblePatternWeights::CompatiblePatternsWithWeights(vec![]);
    assert_eq!(p.weighted_average_colour(&no_weights), empty);
    let many = EnumerateCompatiblePatternWeights::MultipleCompatiblePatternsWithoutWeights;
    assert_eq!(p.weighted_average_colour(&many), empty);
    let one = EnumerateCompatiblePatternWeights::SingleCompatiblePatternWithoutWeight(1);
    assert_eq!(p.weighted_average_colour(&one), rgba(30, 0, 0, 255));
}

#[test]
fn uniform_image_round_trip() {
    let colour = rgba(12, 34, 56, 255);
    let grid = Grid::from_cells(Size::new(4, 4), vec![colour; 16]).unwrap();
    let p = ImagePatterns::new(grid, 2, &vec![Orientation::Original]).unwrap();
    assert_eq!(p.overlapping_patterns.pattern_table.len(), 1);
    let stats = p.global_stats();
    let n = &stats.pattern_descriptions[0].allowed_neighbours;
    assert_eq!((n.north.clone(), n.east.clone(), n.south.clone(), n.west.clone()), (vec![0], vec![0], vec![0], vec![0]));
    // the only pattern fits every cell, so the solver's one attempt succeeds
    let retry = Forever;
    assert!(retry.should_attempt(0));
    let wave = Wave { size: Size::new(4, 4), cells: vec![Some(0); 16] };
    let image = Forever::image_return(Forever::solved(wave), &p);
    assert_eq!(image.size, Size::new(4, 4));
    assert_eq!(image.cells, vec![colour; 16]);
}

#[test]
fn image_from_wave_uses_empty_colour_for_open_cells() {
    let p = two_reds();
    let wave = Wave { size: Size::new(3, 1), cells: vec![Some(1), None, Some(0)] };
    let image = p.image_from_wave(&wave);
    assert_eq!(image.cells, vec![rgba(30, 0, 0, 255), 0, rgba(10, 0, 0, 255)]);
}

#[test]
fn zero_attempts_fail_immediately() {
    let retry = NumTimes(0);
    assert!(!retry.should_attempt(0));
    let r = retry.exhausted(0);
    assert!(matches!(r, Err(PropagateError)));
    let p = two_reds();
    assert!(matches!(NumTimes::image_return(r, &p), Err(PropagateError)));
}

#[test]
fn bounded_retries_count_failures() {
    let retry = NumTimes(2);
    assert!(retry.should_attempt(0));
    assert!(retry.should_attempt(1));
    assert!(!retry.should_attempt(2));
    let par = ParNumTimes(1);
    assert!(par.should_attempt(0));
    assert!(!par.should_attempt(1));
    let p = two_reds();
    let wave = Wave { size: Size::new(1, 1), cells: vec![Some(0)] };
    let image = ParNumTimes::image_return(ParNumTimes::solved(wave), &p).unwrap();
    assert_eq!(image.cells, vec![rgba(10, 0, 0, 255)]);
}
