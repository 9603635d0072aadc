use vstd::arithmetic::div_mod::{lemma_add_mod_noop, lemma_mul_mod_noop_left};
use vstd::prelude::*;

verus! {

/// The number that a byte string denotes, least significant byte first.
pub open spec fn le_value(s: Seq<u8>) -> nat
    decreases s.len(),
{
    if s.len() == 0 {
        0
    } else {
        s[0] as nat + 256 * le_value(s.drop_first())
    }
}

/// The `n` low-order bytes of `v`, least significant first.
pub open spec fn le_bytes(v: nat, n: nat) -> Seq<u8>
    decreases n,
{
    if n == 0 {
        Seq::empty()
    } else {
        seq![(v % 256) as u8] + le_bytes(v / 256, (n - 1) as nat)
    }
}

/// `256^n`.
pub open spec fn byte_bound(n: nat) -> nat
    decreases n,
{
    if n == 0 {
        1
    } else {
        256 * byte_bound((n - 1) as nat)
    }
}

pub proof fn lemma_le_bytes_len(v: nat, n: nat)
    ensures
        le_bytes(v, n).len() == n,
    decreases n,
{
    if n > 0 {
        lemma_le_bytes_len(v / 256, (n - 1) as nat);
    }
}

/// Reading back the `n` bytes of a number below `256^n` gives the number.
pub proof fn lemma_le_round_trip(v: nat, n: nat)
    requires
        v < byte_bound(n),
    ensures
        le_value(le_bytes(v, n)) == v,
    decreases n,
{
    lemma_le_bytes_len(v, n);
    if n > 0 {
        let rest = le_bytes(v / 256, (n - 1) as nat);
        assert(le_bytes(v, n).drop_first() =~= rest);
        assert(v / 256 < byte_bound((n - 1) as nat));
        lemma_le_round_trip(v / 256, (n - 1) as nat);
    }
}

pub proof fn lemma_byte_bound_8()
    ensures
        byte_bound(8) == 0x1_0000_0000_0000_0000,
{
    reveal_with_fuel(byte_bound, 9);
}

proof fn lemma_horner_step(x: int, c: int, m: int)
    requires
        m > 0,
    ensures
        ((x % m) * 256 + c) % m == (x * 256 + c) % m,
{
    lemma_mul_mod_noop_left(x, 256, m);
    lemma_add_mod_noop((x % m) * 256, c, m);
    lemma_add_mod_noop(x * 256, c, m);
}

/// The number that `b` denotes (least significant byte first), reduced mod `m`.
pub fn le_value_mod(b: &[u8], m: u64) -> (r: u64)
    requires
        m > 0,
    ensures
        r as nat == le_value(b@) % (m as nat),
{
    let mut acc: u64 = 0;
    let mut i: usize = b.len();
    assert(b@.subrange(i as int, b@.len() as int) =~= Seq::<u8>::empty());
    assert(le_value(b@.subrange(i as int, b@.len() as int)) == 0);
    while i > 0
        invariant
            i <= b@.len(),
            m > 0,
            acc < m,
            acc as nat == le_value(b@.subrange(i as int, b@.len() as int)) % (m as nat),
        decreases i,
    {
        let ghost prev = b@.subrange(i as int, b@.len() as int);
        i = i - 1;
        let ghost cur = b@.subrange(i as int, b@.len() as int);
        assert(cur.drop_first() =~= prev);
        proof {
            lemma_horner_step(le_value(prev) as int, b@[i as int] as int, m as int);
        }
        acc = ((acc as u128 * 256 + b[i] as u128) % (m as u128)) as u64;
    }
    assert(b@.subrange(0, b@.len() as int) =~= b@);
    acc
}

/// The eight bytes of `x`, least significant first.
pub fn u64_le_bytes(x: u64) -> (r: Vec<u8>)
    ensures
        r@ == le_bytes(x as nat, 8),
{
    let mut r: Vec<u8> = Vec::new();
    let mut cur: u64 = x;
    let mut i: usize = 0;
    while i < 8
        invariant
            i <= 8,
            r@ + le_bytes(cur as nat, (8 - i) as nat) == le_bytes(x as nat, 8),
        decreases 8 - i,
    {
        let ghost before = r@;
        r.push((cur % 256) as u8);
        assert(le_bytes(cur as nat, (8 - i) as nat) == seq![(cur % 256) as u8] + le_bytes(
            (cur / 256) as nat,
            (8 - i - 1) as nat,
        ));
        assert(before + le_bytes(cur as nat, (8 - i) as nat) =~= r@ + le_bytes(
            (cur / 256) as nat,
            (8 - i - 1) as nat,
        ));
        cur = cur / 256;
        i = i + 1;
    }
    assert(r@ + le_bytes(cur as nat, 0) =~= r@);
    r
}

} // verus!
