use vstd::prelude::*;

verus! {

/// `2^64`.
pub const LIMB: u128 = 0x1_0000_0000_0000_0000;

/// `a + b + carry`: returns the low limb and leaves the high limb in `carry`.
pub fn adc(a: u64, b: u64, carry: &mut u64) -> (r: u64)
    ensures
        r as int == (a + b + *old(carry)) % (LIMB as int),
        *final(carry) as int == (a + b + *old(carry)) / (LIMB as int),
        r as int + *final(carry) as int * LIMB as int == a + b + *old(carry),
{
    let tmp: u128 = a as u128 + b as u128 + *carry as u128;
    *carry = (tmp / LIMB) as u64;
    (tmp % LIMB) as u64
}

/// `a - b - borrow`: returns the low limb and sets `borrow` to 1 where the
/// difference is negative, 0 otherwise.
pub fn sbb(a: u64, b: u64, borrow: &mut u64) -> (r: u64)
    requires
        *old(borrow) <= 1,
    ensures
        r as int == (LIMB as int + a - b - *old(borrow)) % (LIMB as int),
        *final(borrow) == if a >= b + *old(borrow) { 0u64 } else { 1u64 },
        r as int == a - b - *old(borrow) + *final(borrow) as int * LIMB as int,
{
    let tmp: u128 = LIMB + a as u128 - b as u128 - *borrow as u128;
    *borrow = if tmp / LIMB == 0 { 1 } else { 0 };
    (tmp % LIMB) as u64
}

proof fn lemma_mac_bound(a: u64, b: u64, c: u64, d: u64)
    ensures
        a as int + b as int * c as int + d as int <= u128::MAX,
{
    assert(b as int * c as int <= (u64::MAX as int) * (u64::MAX as int)) by (nonlinear_arith)
        requires
            b <= u64::MAX,
            c <= u64::MAX,
    ;
}

/// `a + b * c + carry`: returns the low limb and leaves the high limb in
/// `carry`.
pub fn mac_with_carry(a: u64, b: u64, c: u64, carry: &mut u64) -> (r: u64)
    ensures
        r as int == (a + b * c + *old(carry)) % (LIMB as int),
        *final(carry) as int == (a + b * c + *old(carry)) / (LIMB as int),
{
    proof {
        lemma_mac_bound(a, b, c, *carry);
    }
    let tmp: u128 = a as u128 + b as u128 * c as u128 + *carry as u128;
    *carry = (tmp / LIMB) as u64;
    (tmp % LIMB) as u64
}

/// `a + b * c`: returns the low limb and puts the high limb in `carry`
/// (its previous value is not read).
pub fn mac(a: u64, b: u64, c: u64, carry: &mut u64) -> (r: u64)
    ensures
        r as int == (a + b * c) % (LIMB as int),
        *final(carry) as int == (a + b * c) / (LIMB as int),
{
    proof {
        lemma_mac_bound(a, b, c, 0);
    }
    let tmp: u128 = a as u128 + b as u128 * c as u128;
    *carry = (tmp / LIMB) as u64;
    (tmp % LIMB) as u64
}

/// The high limb of `a + b * c`, put in `carry`; the low limb is dropped.
pub fn mac_discard(a: u64, b: u64, c: u64, carry: &mut u64)
    ensures
        *final(carry) as int == (a + b * c) / (LIMB as int),
{
    proof {
        lemma_mac_bound(a, b, c, 0);
    }
    let tmp: u128 = a as u128 + b as u128 * c as u128;
    *carry = (tmp / LIMB) as u64;
}

} // verus!
