use babel_protocol::base::BabelBase;
use babel_protocol::math::BabelMath;

#[test]
fn test_composite_debt() {
    let contract = BabelBase::new(100);
    assert_eq!(contract.get_composite_debt(200), 300);
}

#[test]
fn test_net_debt() {
    let contract = BabelBase::new(100);
    assert_eq!(contract.get_net_debt(200), 100);
}

#[test]
fn test_coll_gas_compensation() {
    let contract = BabelBase::new(100);
    assert_eq!(contract.get_coll_gas_compensation(200), 1);
}

#[test]
fn test_require_user_accepts_fee() {
    let contract = BabelBase::new(100);
    assert_eq!(contract.require_user_accepts_fee(50, 200, 1e18 as u128), Ok(()));
    assert_eq!(
        contract.require_user_accepts_fee(100, 200, 0.25e18 as u128),
        Err("Fee exceeded provided maximum")
    );
}

#[test]
fn test_borsh_serialization() {
    let contract = BabelBase::new(100);
    let serialized = contract.to_bytes();
    assert_eq!(serialized, borsh::to_vec(&100u128).unwrap());
    let deserialized = BabelBase::from_bytes(&serialized).unwrap();
    assert_eq!(contract.debt_gas_compensation(), deserialized.debt_gas_compensation());
}

#[test]
fn base_from_bytes_rejects_wrong_length() {
    assert!(BabelBase::from_bytes(&[1, 2, 3]).is_none());
    let mut long = BabelBase::new(7).to_bytes();
    long.push(0);
    assert!(BabelBase::from_bytes(&long).is_none());
}

#[test]
fn test_min() {
    assert_eq!(BabelMath::min(5, 10), 5);
    assert_eq!(BabelMath::min(10, 5), 5);
    assert_eq!(BabelMath::min(5, 5), 5);
}

#[test]
fn test_max() {
    assert_eq!(BabelMath::max(5, 10), 10);
    assert_eq!(BabelMath::max(10, 5), 10);
    assert_eq!(BabelMath::max(5, 5), 5);
}

#[test]
fn test_dec_mul() {
    assert_eq!(
        BabelMath::dec_mul(2 * BabelMath::DECIMAL_PRECISION, 3 * BabelMath::DECIMAL_PRECISION),
        6 * BabelMath::DECIMAL_PRECISION
    );
}

#[test]
fn test_dec_pow() {
    assert_eq!(BabelMath::dec_pow(2 * BabelMath::DECIMAL_PRECISION, 3), 8 * BabelMath::DECIMAL_PRECISION);
}

#[test]
fn dec_pow_edge_cases() {
    let half = BabelMath::DECIMAL_PRECISION / 2;
    assert_eq!(BabelMath::dec_pow(half, 0), BabelMath::DECIMAL_PRECISION);
    assert_eq!(BabelMath::dec_pow(half, 1), half);
    assert_eq!(BabelMath::dec_pow(BabelMath::DECIMAL_PRECISION, 1000), BabelMath::DECIMAL_PRECISION);
    assert_eq!(BabelMath::dec_pow(half, 2), BabelMath::DECIMAL_PRECISION / 4);
}

#[test]
fn dec_mul_rounds_half_up() {
    // 1.5e-18 * 1 rounds to 2e-18 under the half-up rule.
    assert_eq!(BabelMath::dec_mul(3, BabelMath::DECIMAL_PRECISION / 2), 2);
    assert_eq!(BabelMath::dec_mul(1, 1), 0);
}

#[test]
fn test_get_absolute_difference() {
    assert_eq!(BabelMath::get_absolute_difference(10, 5), 5);
    assert_eq!(BabelMath::get_absolute_difference(5, 10), 5);
}

#[test]
fn test_compute_nominal_cr() {
    assert_eq!(BabelMath::compute_nominal_cr(100, 50), 2 * BabelMath::NICR_PRECISION);
    assert_eq!(BabelMath::compute_nominal_cr(100, 0), u128::MAX);
}

#[test]
fn test_compute_cr() {
    assert_eq!(BabelMath::compute_cr(100, 50, BabelMath::DECIMAL_PRECISION), 2 * BabelMath::DECIMAL_PRECISION);
    assert_eq!(BabelMath::compute_cr(100, 0, BabelMath::DECIMAL_PRECISION), u128::MAX);
}

#[test]
fn test_compute_cr_without_price() {
    assert_eq!(BabelMath::compute_cr_without_price(100, 50), 2);
    assert_eq!(BabelMath::compute_cr_without_price(100, 0), u128::MAX);
}
