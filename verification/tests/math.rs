use remote_touchpad::math::{iroot5_u128, isqrt_u64, round_e12, round_milli, scale_milli};

#[test]
fn isqrt_exact_and_floor_values() {
    assert_eq!(isqrt_u64(0), 0);
    assert_eq!(isqrt_u64(1), 1);
    assert_eq!(isqrt_u64(144), 12);
    assert_eq!(isqrt_u64(490_000), 700);
    assert_eq!(isqrt_u64(20_000), 141);
    assert_eq!(isqrt_u64(20_000_000_000), 141_421);
}

#[test]
fn iroot5_exact_and_floor_values() {
    assert_eq!(iroot5_u128(0), 0);
    assert_eq!(iroot5_u128(3125), 5);
    assert_eq!(iroot5_u128(3124), 4);
    assert_eq!(iroot5_u128(209_715_200_000_000), 731);
}

#[test]
fn round_milli_halves_away_from_zero() {
    assert_eq!(round_milli(499), 0);
    assert_eq!(round_milli(500), 1);
    assert_eq!(round_milli(-499), 0);
    assert_eq!(round_milli(-500), -1);
    assert_eq!(round_milli(10_800), 11);
    assert_eq!(round_milli(-10_800), -11);
}

#[test]
fn scale_milli_truncates_toward_zero() {
    assert_eq!(scale_milli(999, 500), 499);
    assert_eq!(scale_milli(-999, 500), -499);
    assert_eq!(scale_milli(3000, 80), 240);
    assert_eq!(scale_milli(-120, 80), -9);
}

#[test]
fn round_e12_rounds_scroll_products() {
    assert_eq!(round_e12(-16_000_000_000_000), -16);
    assert_eq!(round_e12(2_875_000_000_000), 3);
    assert_eq!(round_e12(2_499_999_999_999), 2);
    assert_eq!(round_e12(-2_500_000_000_000), -3);
}
