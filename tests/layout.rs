use pscan::layout::{calculate_positions, parse_indices, parse_layout, parse_position, validate_position_parameters};

fn s(v: &str) -> Option<String> {
    Some(v.to_string())
}

#[test]
fn test_parse_indices() {
    assert_eq!(parse_indices("", 5), Vec::<usize>::new());
    assert_eq!(parse_indices("1,2,3", 5), vec![1, 2, 3]);
    assert_eq!(parse_indices("1, 2, 3", 5), vec![1, 2, 3]);
    assert_eq!(parse_indices("1,6,3", 5), vec![1, 3]);
    assert_eq!(parse_indices("1,,3", 5), vec![1, 3]);
}

#[test]
fn test_parse_position() {
    assert_eq!(parse_position("100,200").unwrap(), (100, 200));
    assert_eq!(parse_position(" 100 , 200 ").unwrap(), (100, 200));
    assert!(parse_position("100").is_err());
    assert!(parse_position("100,200,300").is_err());
    assert!(parse_position("abc,def").is_err());
}

#[test]
fn test_parse_layout() {
    assert_eq!(parse_layout("100,200,150,250", 2).unwrap(), vec![(100, 200), (150, 250)]);
    assert_eq!(parse_layout("100,200,150,250,200,300", 2).unwrap(), vec![(100, 200), (150, 250)]);
    assert!(parse_layout("100,200,150", 2).is_err());
    assert!(parse_layout("100,200", 2).is_err());
}

#[test]
fn test_validate_position_parameters() {
    assert!(validate_position_parameters(&None, &None, &None, &None, &None, &None).is_err());
    assert!(validate_position_parameters(&s("100,200"), &None, &None, &None, &None, &None).is_ok());
    assert!(validate_position_parameters(&None, &s("100,200"), &None, &None, &None, &None).is_ok());
    assert!(validate_position_parameters(&None, &None, &s("0"), &s("0"), &None, &None).is_ok());
    assert!(validate_position_parameters(&s("100,200"), &s("100,200"), &None, &None, &None, &None).is_err());
}

#[test]
fn test_calculate_positions() {
    let single = calculate_positions(3, &s("100,200"), "", &None, &None, &None, &None).unwrap();
    assert_eq!(single, vec![(100, 200), (100, 200), (100, 200)]);

    let layout = calculate_positions(2, &None, "100,200,150,250", &None, &None, &None, &None).unwrap();
    assert_eq!(layout, vec![(100, 200), (150, 250)]);

    let grid = calculate_positions(3, &None, "", &s("0"), &s("0"), &s("100"), &s("50")).unwrap();
    assert_eq!(grid, vec![(0, 0), (100, 50), (200, 100)]);
}

#[test]
fn explicit_layout_returns_pairs_in_order() {
    let pairs = parse_layout("-5,7, 12 ,0,2147483647,-2147483648", 3).unwrap();
    assert_eq!(pairs, vec![(-5, 7), (12, 0), (2147483647, -2147483648)]);
    let pairs = calculate_positions(3, &None, "1,2,3,4,5,6", &None, &None, &None, &None).unwrap();
    assert_eq!(pairs, vec![(1, 2), (3, 4), (5, 6)]);
}

#[test]
fn explicit_layout_rejects_bad_lists() {
    assert!(parse_layout("1,2,x,4", 2).is_err());
    assert!(parse_layout("1,2,2147483648,4", 2).is_err());
    assert_eq!(parse_layout("1,2,3,4", 0).unwrap(), Vec::<(i32, i32)>::new());
}

#[test]
fn layout_modes_are_exclusive() {
    assert!(validate_position_parameters(&s("1,2"), &s("3,4"), &None, &None, &None, &None).is_err());
    assert!(validate_position_parameters(&None, &s("3,4"), &None, &None, &s("10"), &None).is_err());
    assert!(validate_position_parameters(&s("1,2"), &None, &None, &None, &None, &s("10")).is_err());
    assert!(validate_position_parameters(&None, &s("   "), &None, &None, &None, &None).is_err());
    assert!(validate_position_parameters(&None, &None, &None, &None, &s("5"), &None).is_ok());
}

#[test]
fn grid_uses_defaults_and_steps() {
    let grid = calculate_positions(3, &None, "", &s("0"), &s("0"), &s("100"), &s("50")).unwrap();
    assert_eq!(grid, vec![(0, 0), (100, 50), (200, 100)]);
    let defaults = calculate_positions(3, &None, "", &s("10"), &None, &None, &None).unwrap();
    assert_eq!(defaults, vec![(10, 0), (110, 100), (210, 200)]);
    let unreadable = calculate_positions(2, &None, "", &s("abc"), &s("-3"), &s("?"), &s("-7")).unwrap();
    assert_eq!(unreadable, vec![(0, -3), (100, -10)]);
}

#[test]
fn grid_out_of_range_is_an_error() {
    assert!(calculate_positions(3, &None, "", &s("2147483600"), &None, &None, &None).is_err());
    assert!(calculate_positions(1, &None, "", &s("2147483600"), &None, &None, &None).is_ok());
}

#[test]
fn calculation_without_mode_fails() {
    assert!(calculate_positions(2, &None, "", &None, &None, &None, &None).is_err());
    assert!(calculate_positions(2, &s("oops"), "", &None, &None, &None, &None).is_err());
}

#[test]
fn grid_given_by_steps_alone() {
    assert!(validate_position_parameters(&None, &None, &None, &None, &s("30"), &None).is_ok());
    let grid = calculate_positions(3, &None, "", &None, &None, &s("30"), &None).unwrap();
    assert_eq!(grid, vec![(0, 0), (30, 100), (60, 200)]);
    let grid = calculate_positions(2, &None, "", &None, &None, &None, &s("-5")).unwrap();
    assert_eq!(grid, vec![(0, 0), (100, -5)]);
}

#[test]
fn padded_layout_reads_back() {
    assert_eq!(parse_layout(" 1 ,\t-2, 3,4 ", 2).unwrap(), vec![(1, -2), (3, 4)]);
    let pairs = calculate_positions(2, &None, " 1 , -2 , 3 , 4 ", &None, &None, &None, &None).unwrap();
    assert_eq!(pairs, vec![(1, -2), (3, 4)]);
}

#[test]
fn index_parsing_edge_cases() {
    assert_eq!(parse_indices("1,6,3", 5), vec![1, 3]);
    assert_eq!(parse_indices("1,,3", 5), vec![1, 3]);
    assert_eq!(parse_indices("", 5), Vec::<usize>::new());
    assert_eq!(parse_indices("  ", 5), Vec::<usize>::new());
    assert_eq!(parse_indices("0,+2,-1,x, 5 ", 5), vec![2, 5]);
    assert_eq!(parse_indices("3,3", 3), vec![3, 3]);
}

#[test]
fn layout_errors_describe_the_problem() {
    assert_eq!(parse_layout("1,2,3", 1).unwrap_err(), "Layout must have even number of coordinates, got 3");
    assert_eq!(parse_layout("1,2", 4).unwrap_err(), "Not enough positions in layout (need 4, got 1)");
    assert_eq!(parse_position("1").unwrap_err(), "Invalid position format: 1. Expected 'X,Y'");
    assert_eq!(parse_position("a,2").unwrap_err(), "Invalid X coordinate: a");
}
