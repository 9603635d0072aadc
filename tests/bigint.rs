use spartan::biginteger::{BigInteger, BigInteger256};

#[test]
fn from_u128_splits_into_limbs() {
    let v = BigInteger256::from_u128((7u128 << 64) | 9);
    assert_eq!(v.0, [9, 7, 0, 0]);
    assert_eq!(BigInteger256::num_limbs(), 4);
}

#[test]
fn add_and_sub_with_carry_and_borrow() {
    let mut a = BigInteger256([u64::MAX, u64::MAX, 0, 0]);
    let one = BigInteger256([1, 0, 0, 0]);
    assert!(!a.add_nocarry(&one));
    assert_eq!(a.0, [0, 0, 1, 0]);
    assert!(!a.sub_noborrow(&one));
    assert_eq!(a.0, [u64::MAX, u64::MAX, 0, 0]);
    let mut top = BigInteger256([0, 0, 0, u64::MAX]);
    assert!(top.add_nocarry(&BigInteger256([0, 0, 0, 1])));
    assert_eq!(top.0, [0, 0, 0, 0]);
    assert!(top.is_zero());
    assert!(top.sub_noborrow(&one));
    assert_eq!(top.0, [u64::MAX; 4]);
}

#[test]
fn limb_access_and_parity() {
    let mut v = BigInteger256([0; 4]);
    v.change_pos(2, 5);
    assert_eq!(v.0, [0, 0, 5, 0]);
    assert!(!v.is_zero());
    assert!(!v.is_odd());
    v.change_pos(0, 3);
    assert!(v.is_odd());
}
