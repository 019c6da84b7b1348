use grainlify::strict_mode;

#[test]
fn test_is_enabled_reflects_feature_flag() {
    let _enabled = strict_mode::is_enabled();
}

#[test]
fn test_strict_assert_passes_on_true() {
    strict_mode::strict_assert(true, "this should never fire");
}

#[test]
fn test_strict_assert_eq_passes_on_equal() {
    strict_mode::strict_assert_eq(42u32, 42u32, "values are equal");
    strict_mode::strict_assert_eq(0i128, 0i128, "zeros are equal");
}

#[test]
fn test_strict_assert_balance_sane_valid() {
    strict_mode::strict_assert_balance_sane(100, 50, "test_valid");
    strict_mode::strict_assert_balance_sane(100, 100, "test_full");
    strict_mode::strict_assert_balance_sane(100, 0, "test_empty");
    strict_mode::strict_assert_balance_sane(0, 0, "test_zero");
}

#[test]
fn test_strict_assert_no_overflow_valid() {
    strict_mode::strict_assert_no_overflow(100, 200, "test_add");
    strict_mode::strict_assert_no_overflow(0, 0, "test_zero");
    strict_mode::strict_assert_no_overflow(i128::MAX - 1, 1, "test_boundary");
}

#[test]
fn test_is_enabled_returns_false() {
    assert!(!strict_mode::is_enabled());
}

#[test]
fn test_strict_assert_does_not_panic_on_false() {
    strict_mode::strict_assert(false, "should not fire");
}

#[test]
fn test_strict_assert_eq_does_not_panic_on_mismatch() {
    strict_mode::strict_assert_eq(1u32, 2u32, "should not fire");
}

#[test]
fn test_strict_assert_balance_sane_does_not_panic_on_invalid() {
    strict_mode::strict_assert_balance_sane(100, 200, "should not fire");
    strict_mode::strict_assert_balance_sane(-1, 0, "should not fire");
}

#[test]
fn test_strict_assert_no_overflow_does_not_panic() {
    strict_mode::strict_assert_no_overflow(i128::MAX, 1, "should not fire");
}

#[test]
fn strict_mode_constant_is_off() {
    assert!(!strict_mode::STRICT_MODE_ENABLED);
}
