use evo_islands::fixed::{
    clamp_unit, cube_root, saturating_difference, saturating_sum, square_root, UNIT,
};
use evo_islands::ranking::top_positions;

#[test]
fn test_clamp_unit() {
    assert_eq!(clamp_unit(-1), 0);
    assert_eq!(clamp_unit(0), 0);
    assert_eq!(clamp_unit(123), 123);
    assert_eq!(clamp_unit(UNIT), UNIT);
    assert_eq!(clamp_unit(UNIT + 1), UNIT);
    assert_eq!(clamp_unit(i64::MIN), 0);
    assert_eq!(clamp_unit(i64::MAX), UNIT);
}

#[test]
fn test_saturating_arithmetic() {
    assert_eq!(saturating_sum(2, 3), 5);
    assert_eq!(saturating_sum(i64::MAX, 1), i64::MAX);
    assert_eq!(saturating_sum(i64::MIN, -1), i64::MIN);
    assert_eq!(saturating_difference(2, 3), -1);
    assert_eq!(saturating_difference(i64::MIN, 1), i64::MIN);
    assert_eq!(saturating_difference(i64::MAX, -1), i64::MAX);
    assert_eq!(saturating_difference(0, i64::MIN), i64::MAX);
}

#[test]
fn test_cube_root() {
    assert_eq!(cube_root(0), 0);
    assert_eq!(cube_root(1), 1);
    assert_eq!(cube_root(7), 1);
    assert_eq!(cube_root(8), 2);
    assert_eq!(cube_root(26), 2);
    assert_eq!(cube_root(27), 3);
    assert_eq!(cube_root(1_000_000_000_000_000_000), 1_000_000);
    assert_eq!(cube_root(999_999_999_999_999_999), 999_999);
    assert_eq!(cube_root(u64::MAX), 2_642_245);
}

#[test]
fn test_square_root() {
    assert_eq!(square_root(0), 0);
    assert_eq!(square_root(3), 1);
    assert_eq!(square_root(4), 2);
    assert_eq!(square_root(99), 9);
    assert_eq!(square_root(2_000_000_000_000), 1_414_213);
    assert_eq!(square_root(u128::MAX), u64::MAX as u128);
}

#[test]
fn test_top_positions() {
    let keys = vec![5, 9, 5, 0, 12, 9];
    assert_eq!(top_positions(&keys, 0), vec![]);
    assert_eq!(top_positions(&keys, 1), vec![4]);
    assert_eq!(top_positions(&keys, 3), vec![4, 1, 5]);
    assert_eq!(top_positions(&keys, 6), vec![4, 1, 5, 0, 2, 3]);
    assert_eq!(top_positions(&keys, 100), vec![4, 1, 5, 0, 2, 3]);
    assert_eq!(top_positions(&vec![], 3), vec![]);
    assert_eq!(top_positions(&vec![7, 7, 7], 2), vec![0, 1]);
}
