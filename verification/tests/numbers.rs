use smartvault::hash::{hash_bytes, hash_string};
use smartvault::uint::u64_to_be_bytes;
use smartvault::{Address, U256};

#[test]
fn hash_of_empty_text_is_the_keccak_of_nothing() {
    let expected: [u8; 32] = [
        0xc5, 0xd2, 0x46, 0x01, 0x86, 0xf7, 0x23, 0x3c, 0x92, 0x7e, 0x7d, 0xb2, 0xdc, 0xc7, 0x03,
        0xc0, 0xe5, 0x00, 0xb6, 0x53, 0xca, 0x82, 0x27, 0x3b, 0x7b, 0xfa, 0xd8, 0x04, 0x5d, 0x85,
        0xa4, 0x70,
    ];
    assert_eq!(hash_string(""), expected);
    assert_eq!(hash_bytes(&[]), expected);
}

#[test]
fn hash_of_text_agrees_with_the_hash_of_its_bytes() {
    assert_eq!(hash_string("alice"), hash_bytes("alice".as_bytes()));
    assert_eq!(hash_string("alice"), alloy_primitives::keccak256("alice").0);
    assert_ne!(hash_string("alice"), hash_string("bob"));
}

#[test]
fn checked_add_adds_and_refuses_overflow() {
    assert_eq!(U256::from_u64(6).checked_add(U256::from_u64(7)), Some(U256::from_u64(13)));
    assert_eq!(
        U256::from_u64(u64::MAX).checked_add(U256::one()),
        Some(U256::from_limbs([0, 1, 0, 0]))
    );
    assert_eq!(U256::max_value().checked_add(U256::one()), None);
    assert_eq!(U256::max_value().checked_add(U256::zero()), Some(U256::max_value()));
}

#[test]
fn checked_sub_subtracts_and_refuses_underflow() {
    assert_eq!(U256::from_u64(13).checked_sub(U256::from_u64(7)), Some(U256::from_u64(6)));
    assert_eq!(
        U256::from_limbs([0, 1, 0, 0]).checked_sub(U256::one()),
        Some(U256::from_u64(u64::MAX))
    );
    assert_eq!(U256::from_u64(7).checked_sub(U256::from_u64(13)), None);
    assert_eq!(U256::zero().checked_sub(U256::zero()), Some(U256::zero()));
}

#[test]
fn checked_mul_multiplies_and_refuses_overflow() {
    assert_eq!(U256::from_u64(6).checked_mul(U256::from_u64(7)), Some(U256::from_u64(42)));
    assert_eq!(
        U256::from_limbs([0, 1, 0, 0]).checked_mul(U256::from_limbs([0, 1, 0, 0])),
        Some(U256::from_limbs([0, 0, 1, 0]))
    );
    assert_eq!(U256::max_value().checked_mul(U256::from_u64(2)), None);
    assert_eq!(
        U256::from_limbs([0, 0, 1, 0]).checked_mul(U256::from_limbs([0, 0, 1, 0])),
        None
    );
}

#[test]
fn checked_div_rounds_down_and_refuses_zero() {
    assert_eq!(U256::from_u64(42).checked_div(U256::from_u64(5)), Some(U256::from_u64(8)));
    assert_eq!(U256::from_u64(4).checked_div(U256::from_u64(5)), Some(U256::zero()));
    assert_eq!(
        U256::from_limbs([0, 0, 1, 0]).checked_div(U256::from_limbs([0, 1, 0, 0])),
        Some(U256::from_limbs([0, 1, 0, 0]))
    );
    assert_eq!(U256::from_u64(42).checked_div(U256::zero()), None);
}

#[test]
fn comparisons_read_the_words_from_the_top() {
    let small = U256::from_limbs([u64::MAX, u64::MAX, u64::MAX, 0]);
    let large = U256::from_limbs([0, 0, 0, 1]);
    assert!(small.lt(&large));
    assert!(!large.lt(&small));
    assert!(large.gt(&small));
    assert!(small.le(&small));
    assert!(!small.lt(&small));
    assert!(U256::from_limbs([1, 2, 0, 0]).lt(&U256::from_limbs([0, 3, 0, 0])));
    assert!(U256::zero().is_zero());
    assert!(!large.is_zero());
}

#[test]
fn limbs_and_small_values_round_trip() {
    let x = U256::from_limbs([1, 2, 3, 4]);
    assert_eq!(x.into_limbs(), [1, 2, 3, 4]);
    assert_eq!(U256::from_u64(9).into_limbs(), [9, 0, 0, 0]);
    assert_eq!(U256::from_u64(9).to_u64(), Some(9));
    assert_eq!(x.to_u64(), None);
    assert_eq!(U256::max_value().into_limbs(), [u64::MAX; 4]);
    assert_eq!(U256::one().into_limbs(), [1, 0, 0, 0]);
}

#[test]
fn big_endian_bytes_put_the_most_significant_first() {
    let mut expected = [0u8; 32];
    expected[31] = 0x02;
    expected[30] = 0x01;
    assert_eq!(U256::from_u64(0x0102).to_be_bytes(), expected);
    let mut top = [0u8; 32];
    top[0] = 0x80;
    assert_eq!(U256::from_limbs([0, 0, 0, 1 << 63]).to_be_bytes(), top);
    assert_eq!(u64_to_be_bytes(0x0102_0304_0506_0708), [1, 2, 3, 4, 5, 6, 7, 8]);
}

#[test]
fn addresses_compare_by_their_bytes() {
    let a = Address::from_bytes([7u8; 20]);
    let b = Address::from_bytes([7u8; 20]);
    let mut other = [7u8; 20];
    other[19] = 8;
    let c = Address::from_bytes(other);
    assert_eq!(a, b);
    assert!(a.same(&b));
    assert_ne!(a, c);
    assert!(!a.same(&c));
    assert_eq!(a.to_bytes(), [7u8; 20]);
    assert!(Address::zero().is_zero());
    assert!(!a.is_zero());
    assert_eq!(Address::zero().to_bytes(), [0u8; 20]);
}
