use crate::arithmetic::{adc, sbb, LIMB};
use vstd::prelude::*;

verus! {

/// `(2^64)^k`.
pub open spec fn limb_pow(k: nat) -> nat
    decreases k,
{
    if k == 0 {
        1
    } else {
        (LIMB as nat) * limb_pow((k - 1) as nat)
    }
}

/// The number that the first `n` limbs denote, least significant first.
pub open spec fn limbs_value(s: Seq<u64>, n: nat) -> nat
    decreases n,
{
    if n == 0 {
        0
    } else {
        limbs_value(s, (n - 1) as nat) + s[n - 1] as nat * limb_pow((n - 1) as nat)
    }
}

proof fn lemma_limbs_prefix(s1: Seq<u64>, s2: Seq<u64>, n: nat)
    requires
        n <= s1.len(),
        n <= s2.len(),
        forall|j: int| 0 <= j < n ==> s1[j] == s2[j],
    ensures
        limbs_value(s1, n) == limbs_value(s2, n),
    decreases n,
{
    if n > 0 {
        lemma_limbs_prefix(s1, s2, (n - 1) as nat);
    }
}

/// A number held as a fixed count of 64-bit limbs, least significant first.
pub trait BigInteger: Sized {
    spec fn limbs(&self) -> Seq<u64>;

    /// The number of limbs.
    fn num_limbs() -> (n: usize);

    /// Sets limb `i` to `v`.
    fn change_pos(&mut self, i: usize, v: u64)
        requires
            i < old(self).limbs().len(),
        ensures
            final(self).limbs() == old(self).limbs().update(i as int, v),
    ;

    /// The number `val`, where at least two limbs hold it; zero otherwise.
    fn from_u128(val: u128) -> (r: Self)
        ensures
            r.limbs().len() >= 2 ==> limbs_value(r.limbs(), r.limbs().len()) == val,
            r.limbs().len() < 2 ==> limbs_value(r.limbs(), r.limbs().len()) == 0,
    ;

    /// Adds `other` in place, returning the carry out of the top limb.
    fn add_nocarry(&mut self, other: &Self) -> (carry: bool)
        ensures
            final(self).limbs().len() == old(self).limbs().len(),
            limbs_value(final(self).limbs(), final(self).limbs().len()) + (if carry {
                limb_pow(old(self).limbs().len())
            } else {
                0
            }) == limbs_value(old(self).limbs(), old(self).limbs().len()) + limbs_value(
                other.limbs(),
                other.limbs().len(),
            ),
    ;

    /// Subtracts `other` in place, returning the borrow out of the top limb.
    fn sub_noborrow(&mut self, other: &Self) -> (borrow: bool)
        ensures
            final(self).limbs().len() == old(self).limbs().len(),
            limbs_value(final(self).limbs(), final(self).limbs().len()) == limbs_value(
                old(self).limbs(),
                old(self).limbs().len(),
            ) - limbs_value(other.limbs(), other.limbs().len()) + (if borrow {
                limb_pow(old(self).limbs().len())
            } else {
                0
            }),
    ;

    /// Whether every limb is zero.
    fn is_zero(&self) -> (r: bool)
        ensures
            r <==> forall|j: int| 0 <= j < self.limbs().len() ==> self.limbs()[j] == 0,
    ;

    /// Whether the number is odd.
    fn is_odd(&self) -> (r: bool)
        ensures
            self.limbs().len() > 0 ==> (r <==> self.limbs()[0] % 2 == 1),
    ;
}

/// A 256-bit number in four limbs.
#[derive(Clone, Copy, Debug, PartialEq, Eq)]
pub struct BigInteger256(pub [u64; 4]);

impl BigInteger for BigInteger256 {
    open spec fn limbs(&self) -> Seq<u64> {
        self.0@
    }

    fn num_limbs() -> (n: usize) {
        4
    }

    fn change_pos(&mut self, i: usize, v: u64) {
        self.0[i] = v;
    }

    fn from_u128(val: u128) -> (r: Self) {
        let lo = (val % LIMB) as u64;
        let hi = (val / LIMB) as u64;
        let r = BigInteger256([lo, hi, 0, 0]);
        proof {
            reveal_with_fuel(limbs_value, 5);
            reveal_with_fuel(limb_pow, 4);
            assert(r.0@[0] == lo && r.0@[1] == hi && r.0@[2] == 0 && r.0@[3] == 0);
            let q = r.0@;
            assert(limb_pow(0) == 1);
            assert(limb_pow(1) == LIMB as nat);
            assert(limbs_value(q, 0) == 0);
            assert(limbs_value(q, 1) == lo as nat);
            assert(limbs_value(q, 2) == limbs_value(q, 1) + hi as nat * limb_pow(1));
            assert(limbs_value(q, 3) == limbs_value(q, 2) + q[2] as nat * limb_pow(2));
            assert(limbs_value(q, 4) == limbs_value(q, 3) + q[3] as nat * limb_pow(3));
            assert(val == lo + hi * LIMB);
        }
        r
    }

    fn add_nocarry(&mut self, other: &Self) -> (carry: bool) {
        let ghost orig = self.0@;
        let mut c: u64 = 0;
        let mut i: usize = 0;
        while i < 4
            invariant
                i <= 4,
                self.0@.len() == 4,
                orig.len() == 4,
                other.0@.len() == 4,
                c <= 1,
                forall|j: int| i <= j < 4 ==> self.0@[j] == orig[j],
                limbs_value(self.0@, i as nat) + c * limb_pow(i as nat) == limbs_value(orig, i as nat)
                    + limbs_value(other.0@, i as nat),
            decreases 4 - i,
        {
            let ghost before = self.0@;
            let a = self.0[i];
            let o = other.0[i];
            let ghost c_old = c;
            let r = adc(a, o, &mut c);
            self.0[i] = r;
            proof {
                lemma_limbs_prefix(self.0@, before, i as nat);
                let p = limb_pow(i as nat);
                assert(r as int * p + c as int * (LIMB as int * p) == a as int * p + o as int * p
                    + c_old as int * p) by (nonlinear_arith)
                    requires
                        r as int + c as int * LIMB as int == a + o + c_old,
                ;
            }
            i = i + 1;
        }
        c == 1
    }

    fn sub_noborrow(&mut self, other: &Self) -> (borrow: bool) {
        let ghost orig = self.0@;
        let mut b: u64 = 0;
        let mut i: usize = 0;
        while i < 4
            invariant
                i <= 4,
                self.0@.len() == 4,
                orig.len() == 4,
                other.0@.len() == 4,
                b <= 1,
                forall|j: int| i <= j < 4 ==> self.0@[j] == orig[j],
                limbs_value(self.0@, i as nat) == limbs_value(orig, i as nat) - limbs_value(
                    other.0@,
                    i as nat,
                ) + b * limb_pow(i as nat),
            decreases 4 - i,
        {
            let ghost before = self.0@;
            let a = self.0[i];
            let o = other.0[i];
            let ghost b_old = b;
            let r = sbb(a, o, &mut b);
            self.0[i] = r;
            proof {
                lemma_limbs_prefix(self.0@, before, i as nat);
                let p = limb_pow(i as nat);
                assert(r as int * p == a as int * p - o as int * p - b_old as int * p + b as int * (
                LIMB as int * p)) by (nonlinear_arith)
                    requires
                        r as int == a - o - b_old + b as int * LIMB as int,
                ;
            }
            i = i + 1;
        }
        b == 1
    }

    fn is_zero(&self) -> (r: bool) {
        let mut i: usize = 0;
        while i < 4
            invariant
                i <= 4,
                self.0@.len() == 4,
                forall|j: int| 0 <= j < i ==> self.0@[j] == 0,
            decreases 4 - i,
        {
            if self.0[i] != 0 {
                assert(self.limbs()[i as int] != 0);
                return false;
            }
            i = i + 1;
        }
        true
    }

    fn is_odd(&self) -> (r: bool) {
        self.0[0] % 2 == 1
    }
}

} // verus!
