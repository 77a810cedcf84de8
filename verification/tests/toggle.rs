use scan_mvcf::toggle::{resolve, HOME_SENTINEL};

#[test]
fn scan_elsewhere_moves_the_resident() {
    assert_eq!(resolve(0, 9), (9, 9));
    assert_eq!(resolve(4, 9), (9, 9));
}

#[test]
fn scan_at_the_recorded_location_returns_home() {
    assert_eq!(resolve(9, 9), (0, 0));
    assert_eq!(resolve(9, 9), (HOME_SENTINEL, HOME_SENTINEL));
}

#[test]
fn scan_of_the_sentinel_is_a_return() {
    assert_eq!(resolve(5, 0), (0, 0));
    assert_eq!(resolve(0, 0), (0, 0));
}

#[test]
fn home_unit_is_not_treated_specially() {
    let unit = 14;
    assert_eq!(resolve(0, unit), (unit, unit));
    assert_eq!(resolve(unit, unit), (0, 0));
}

#[test]
fn toggle_over_a_grid_of_pairs() {
    for current in -3..12 {
        for target in -3..12 {
            let expected = if current == target { (0, 0) } else { (target, target) };
            assert_eq!(resolve(current, target), expected);
        }
    }
    assert_eq!(resolve(i32::MAX, i32::MIN), (i32::MIN, i32::MIN));
    assert_eq!(resolve(i32::MIN, i32::MIN), (0, 0));
}

#[test]
fn two_scans_in_a_row_toggle_back() {
    let (after_first, recorded_first) = resolve(0, 9);
    assert_eq!((after_first, recorded_first), (9, 9));
    let (after_second, recorded_second) = resolve(after_first, 9);
    assert_eq!((after_second, recorded_second), (0, 0));
}
