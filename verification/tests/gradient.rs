use surfgen::errors::ConfigError;
use surfgen::fixed::Fixed;
use surfgen::gradient::{map_color, Gradient, GradientStop};

fn stop(value: i64, color: [u8; 4]) -> GradientStop {
    GradientStop { value: Fixed::from_raw(value), color }
}

fn dust() -> Gradient {
    Gradient::new(vec![
        stop(-1_000_000_000, [94, 80, 64, 255]),
        stop(0, [138, 120, 96, 255]),
        stop(1_000_000_000, [208, 185, 140, 255]),
    ])
    .unwrap()
}

#[test]
fn gradient_needs_two_stops() {
    assert_eq!(Gradient::new(Vec::new()).err(), Some(ConfigError::TooFewStops));
    assert_eq!(
        Gradient::new(vec![stop(0, [1, 2, 3, 4])]).err(),
        Some(ConfigError::TooFewStops)
    );
    assert!(Gradient::new(vec![stop(0, [1, 2, 3, 4]), stop(1, [5, 6, 7, 8])]).is_ok());
}

#[test]
fn gradient_needs_ascending_stops() {
    let unsorted = vec![stop(0, [0; 4]), stop(2, [0; 4]), stop(1, [0; 4])];
    assert_eq!(Gradient::new(unsorted).err(), Some(ConfigError::UnsortedStops));
    let repeated = vec![stop(0, [0; 4]), stop(1, [0; 4]), stop(1, [9; 4])];
    assert_eq!(Gradient::new(repeated).err(), Some(ConfigError::UnsortedStops));
    let descending = vec![stop(1, [0; 4]), stop(0, [0; 4])];
    assert_eq!(Gradient::new(descending).err(), Some(ConfigError::UnsortedStops));
}

#[test]
fn gradient_keeps_its_stops_in_order() {
    let g = dust();
    assert_eq!(g.len(), 3);
    assert_eq!(g.stop(0).unwrap().value.raw(), -1_000_000_000);
    assert_eq!(g.stop(1).unwrap().color, [138, 120, 96, 255]);
    assert_eq!(g.stop(2).unwrap().value.raw(), 1_000_000_000);
    assert!(g.stop(3).is_none());
}

#[test]
fn gradient_clamps_below_and_above() {
    let g = dust();
    assert_eq!(g.map_color(Fixed::from_raw(-1_000_000_001)), [94, 80, 64, 255]);
    assert_eq!(g.map_color(Fixed::from_raw(i64::MIN)), [94, 80, 64, 255]);
    assert_eq!(g.map_color(Fixed::from_raw(1_000_000_001)), [208, 185, 140, 255]);
    assert_eq!(g.map_color(Fixed::from_raw(i64::MAX)), [208, 185, 140, 255]);
}

#[test]
fn gradient_hits_each_stop() {
    let g = dust();
    assert_eq!(g.map_color(Fixed::from_raw(-1_000_000_000)), [94, 80, 64, 255]);
    assert_eq!(g.map_color(Fixed::from_raw(0)), [138, 120, 96, 255]);
    assert_eq!(g.map_color(Fixed::from_raw(1_000_000_000)), [208, 185, 140, 255]);
}

#[test]
fn gradient_interpolates_between_stops() {
    let g = dust();
    // Halfway between the first two stops: (94 + 138) / 2, (80 + 120) / 2, (64 + 96) / 2.
    assert_eq!(g.map_color(Fixed::from_raw(-500_000_000)), [116, 100, 80, 255]);
    // A third of the way between the last two: 138 + 70 / 3 = 161.33, 120 + 65 / 3 = 141.67.
    assert_eq!(map_color(&g, Fixed::from_raw(333_333_333)), [161, 141, 110, 255]);
    // Just below the last stop every channel has rounded down.
    assert_eq!(map_color(&g, Fixed::from_raw(999_999_999)), [207, 184, 139, 255]);
}

#[test]
fn gradient_interpolates_falling_channels() {
    let g = Gradient::new(vec![
        stop(-1_000_000_000, [200, 0, 255, 7]),
        stop(0, [100, 255, 0, 8]),
    ])
    .unwrap();
    assert_eq!(g.map_color(Fixed::from_raw(-1)), [100, 254, 0, 7]);
    assert_eq!(g.map_color(Fixed::from_raw(-500_000_000)), [150, 127, 127, 7]);
}

#[test]
fn gradient_spans_the_whole_range() {
    let g = Gradient::new(vec![stop(i64::MIN, [0, 0, 0, 0]), stop(i64::MAX, [255, 255, 255, 255])])
        .unwrap();
    assert_eq!(g.map_color(Fixed::from_raw(i64::MIN)), [0, 0, 0, 0]);
    assert_eq!(g.map_color(Fixed::from_raw(-1)), [127, 127, 127, 127]);
    assert_eq!(g.map_color(Fixed::from_raw(i64::MAX)), [255, 255, 255, 255]);
    assert_eq!(g.map_color(Fixed::from_raw(i64::MAX - 1)), [254, 254, 254, 254]);
}
