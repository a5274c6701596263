use indecision::fixed::ext_add;
use indecision::fixed::fp_mul;
use indecision::fixed::fp_pow;
use indecision::fixed::sat_add;
use indecision::fixed::count_mul;
use indecision::fixed::ExtTime;
use indecision::fixed::SCALE;

#[test]
fn fixed_point_products() {
    assert_eq!(fp_mul(SCALE, SCALE), SCALE);
    assert_eq!(fp_mul(2 * SCALE, 3 * SCALE), 6 * SCALE);
    assert_eq!(fp_mul(SCALE / 2, SCALE / 2), SCALE / 4);
    assert_eq!(fp_mul(0, u64::MAX), 0);
    assert_eq!(fp_mul(u64::MAX, u64::MAX), u64::MAX);
}

#[test]
fn fixed_point_powers() {
    assert_eq!(fp_pow(SCALE / 2, 0), SCALE);
    assert_eq!(fp_pow(SCALE / 2, 1), SCALE / 2);
    assert_eq!(fp_pow(SCALE / 2, 2), SCALE / 4);
    assert_eq!(fp_pow(0, 0), SCALE);
    assert_eq!(fp_pow(0, 3), 0);
    assert_eq!(fp_pow(2 * SCALE, 3), 8 * SCALE);
}

#[test]
fn saturating_sums_and_counts() {
    assert_eq!(sat_add(1, 2), 3);
    assert_eq!(sat_add(u64::MAX, 1), u64::MAX);
    assert_eq!(count_mul(3, SCALE), 3 * SCALE);
    assert_eq!(count_mul(u16::MAX, u64::MAX), u64::MAX);
}

#[test]
fn extended_time_shift() {
    assert_eq!(ext_add(5, ExtTime::Finite(7)), ExtTime::Finite(12));
    assert_eq!(ext_add(5, ExtTime::Never), ExtTime::Never);
    assert_eq!(ext_add(u64::MAX, ExtTime::Finite(1)), ExtTime::Never);
}
