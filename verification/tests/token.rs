//! Commission arithmetic and ratio-safety checks.

use streaming::primitives::MAX_AMOUNT;
use streaming::safe_float::SafeFloat;
use streaming::token::Token;

#[test]
fn test_commission_unlisted() {
    let token = Token::new_unlisted(&"token.near".to_string());
    let balance: u128 = 1000000000;
    let (left, commission) = token.apply_commission(balance);
    assert_eq!(left, balance);
    assert_eq!(commission, 0);
    assert_eq!(balance, left + commission);
}

#[test]
fn test_commission_1_percent() {
    let mut token = Token::new_unlisted(&"token.near".to_string());
    token.commission_coef = SafeFloat { val: 1, pow: -2 };
    let balance: u128 = 1000000000;
    let (left, commission) = token.apply_commission(balance);
    assert_eq!(left, balance / 100 * 99);
    assert_eq!(commission, balance / 100);
    assert_eq!(balance, left + commission);
}

#[test]
fn test_commission_100_percent() {
    let mut token = Token::new_unlisted(&"token.near".to_string());
    token.commission_coef = SafeFloat { val: 1, pow: 0 };
    let balance: u128 = 123456;
    let (left, commission) = token.apply_commission(balance);
    assert_eq!(left, 0);
    assert_eq!(commission, balance);
    assert_eq!(balance, left + commission);
}

#[test]
fn test_commission_split_always_sums() {
    let mut token = Token::new_unlisted(&"t.near".to_string());
    token.commission_coef = SafeFloat { val: 4, pow: -3 };
    for amount in [0u128, 1, 2, 999, 1000, 12_345_678_901_234_567_890] {
        let (net, commission) = token.apply_commission(amount);
        assert_eq!(net + commission, amount);
        assert_eq!(commission == 0, amount == 0);
    }
}

#[test]
fn test_commission_zero_coef_iff() {
    let token = Token::new_unlisted(&"t.near".to_string());
    let (net, commission) = token.apply_commission(77);
    assert_eq!(net, 77);
    assert_eq!(commission, 0);
}

#[test]
fn test_mult_safe_small_percentage() {
    let coef = SafeFloat { val: 4, pow: -3 };
    assert!(coef.check_safe());
    assert!(coef.check_safe_commission());
    assert_eq!(coef.mult_safe(1000), 4);
    assert_eq!(coef.mult_safe(999), 3);
    assert_eq!(coef.mult_safe(0), 0);
    assert_eq!(coef.mult_safe(1), 0);
    // 0.4% of 100e23 - 1, rounded down.
    let hundred_e23: u128 = 100 * 100_000_000_000_000_000_000_000;
    assert_eq!(coef.mult_safe(hundred_e23 - 1), hundred_e23 / 1000 * 4 - 1);
}

#[test]
fn test_mult_safe_large_shift() {
    // A value far above the safe ceiling is shifted down first.
    let coef = SafeFloat { val: 1, pow: -2 };
    let x: u128 = 10u128.pow(30);
    assert_eq!(coef.mult_safe(x), 10u128.pow(28));
}

#[test]
fn test_check_safe_rejects_overflowing_ratio() {
    // A huge positive exponent cannot be applied to MAX_AMOUNT.
    let coef = SafeFloat { val: 1000, pow: 10 };
    assert!(!coef.check_safe());
    // Exponents whose power of ten cannot fit 128 bits are unsafe even with
    // a zero-rounding value.
    let coef2 = SafeFloat { val: 1, pow: -50 };
    assert!(!coef2.check_safe());
}

#[test]
fn test_check_safe_commission_requires_rounding_down() {
    // Exactly 100% rounds one unit up, which is forbidden for commissions.
    let full = SafeFloat { val: 1, pow: 0 };
    assert!(full.check_safe());
    assert!(!full.check_safe_commission());
    let small = SafeFloat { val: 999, pow: -3 };
    assert!(small.check_safe_commission());
}

#[test]
fn test_assert_safe_on_valid_ratio() {
    let coef = SafeFloat { val: 25, pow: -4 };
    coef.assert_safe();
    coef.assert_safe_commission();
    assert!(coef.mult_safe(MAX_AMOUNT) > 0);
}
