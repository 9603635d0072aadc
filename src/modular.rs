use vstd::arithmetic::div_mod::lemma_mul_mod_noop;
use vstd::arithmetic::power::{lemma_pow0, lemma_pow1, lemma_pow_adds, pow};
use vstd::prelude::*;

verus! {

/// A product of two `u64` values fits in a `u128`.
pub proof fn lemma_mul_bound_u64(a: u64, b: u64)
    ensures
        (a as int) * (b as int) <= u128::MAX,
{
    assert((a as int) * (b as int) <= (u64::MAX as int) * (u64::MAX as int)) by (nonlinear_arith)
        requires
            a <= u64::MAX,
            b <= u64::MAX,
    ;
}

/// `b^e mod m`, by recursive squaring.
pub fn pow_mod(b: u64, e: u64, m: u64) -> (r: u64)
    requires
        m > 0,
    ensures
        r as int == pow(b as int, e as nat) % (m as int),
        r < m,
    decreases e,
{
    if e == 0 {
        proof {
            lemma_pow0(b as int);
        }
        return 1 % m;
    }
    let h = pow_mod(b, e / 2, m);
    proof {
        lemma_mul_bound_u64(h, h);
    }
    let h2 = ((h as u128 * h as u128) % (m as u128)) as u64;
    let ghost half = pow(b as int, (e / 2) as nat);
    proof {
        lemma_mul_mod_noop(half, half, m as int);
        lemma_pow_adds(b as int, (e / 2) as nat, (e / 2) as nat);
        assert(h2 as int == pow(b as int, (2 * (e / 2)) as nat) % (m as int));
    }
    if e % 2 == 1 {
        proof {
            lemma_mul_bound_u64(h2, b % m);
        }
        let r = ((h2 as u128 * (b % m) as u128) % (m as u128)) as u64;
        proof {
            let sq = pow(b as int, (2 * (e / 2)) as nat);
            lemma_pow_adds(b as int, (2 * (e / 2)) as nat, 1);
            lemma_pow1(b as int);
            lemma_mul_mod_noop(sq, b as int, m as int);
            assert((2 * (e / 2)) as nat + 1 == e as nat);
        }
        r
    } else {
        proof {
            assert((2 * (e / 2)) as nat == e as nat);
        }
        h2
    }
}

} // verus!
