use liquid_book::bit_math::{least_significant_bit, most_significant_bit, U256Extension};
use liquid_book::uint::U256;

fn word(v: u128) -> U256 {
    U256::from_u128(v)
}

#[test]
fn msb_of_small_values() {
    assert_eq!(most_significant_bit(word(1)), Ok(0));
    assert_eq!(most_significant_bit(word(2)), Ok(1));
    assert_eq!(most_significant_bit(word(3)), Ok(1));
    assert_eq!(most_significant_bit(word(255)), Ok(7));
    assert_eq!(most_significant_bit(word(256)), Ok(8));
}

#[test]
fn msb_of_large_values() {
    assert_eq!(most_significant_bit(U256::from_limbs([0, 0, 1, 0])), Ok(128));
    assert_eq!(most_significant_bit(U256::from_limbs([0, 0, 0, 1u64 << 63])), Ok(255));
    assert_eq!(most_significant_bit(U256::from_limbs([u64::MAX; 4])), Ok(255));
    assert_eq!(most_significant_bit(word(u128::MAX)), Ok(127));
}

#[test]
fn msb_of_zero_is_an_error() {
    assert_eq!(most_significant_bit(word(0)), Err("ZeroValue"));
}

#[test]
fn lsb_of_small_values() {
    assert_eq!(least_significant_bit(word(1)), Ok(0));
    assert_eq!(least_significant_bit(word(8)), Ok(3));
    assert_eq!(least_significant_bit(word(12)), Ok(2));
    assert_eq!(least_significant_bit(word(0x80)), Ok(7));
}

#[test]
fn lsb_of_large_values() {
    assert_eq!(least_significant_bit(U256::from_limbs([0, 0, 1, 0])), Ok(128));
    assert_eq!(least_significant_bit(U256::from_limbs([0, 0, 0, 1u64 << 63])), Ok(255));
    assert_eq!(least_significant_bit(U256::from_limbs([u64::MAX; 4])), Ok(0));
    assert_eq!(least_significant_bit(U256::from_limbs([0, 6, 0, 0])), Ok(65));
}

#[test]
fn lsb_of_zero_is_an_error() {
    assert_eq!(least_significant_bit(word(0)), Err("ZeroValue"));
}

#[test]
fn msb_and_lsb_agree_on_powers_of_two() {
    for k in 0..128u32 {
        let w = word(1u128 << k);
        assert_eq!(most_significant_bit(w), Ok(k as u8));
        assert_eq!(least_significant_bit(w), Ok(k as u8));
    }
}

#[test]
fn extension_constants() {
    assert!(U256::zero().is_zero());
    assert!(!U256::one().is_zero());
    assert_eq!(U256::one(), word(1));
    assert_eq!(U256::zero(), word(0));
}

#[test]
fn from_u128_splits_into_limbs() {
    let w = word((7u128 << 64) | 9);
    assert_eq!(w.limbs, [9, 7, 0, 0]);
}
