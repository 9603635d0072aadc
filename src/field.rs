use crate::codec::{
    le_bytes, le_value, le_value_mod, lemma_byte_bound_8, lemma_le_bytes_len, lemma_le_round_trip,
    u64_le_bytes,
};
use crate::modular::{lemma_mul_bound_u64, pow_mod};
use vstd::arithmetic::div_mod::lemma_mod_multiples_vanish;
use vstd::arithmetic::power::pow;
use vstd::prelude::*;

verus! {

/// The prime order of the scalar field.
pub const FIELD_MODULUS: u64 = 4611686018427385619;

pub open spec fn fadd(a: nat, b: nat) -> nat {
    (a + b) % (FIELD_MODULUS as nat)
}

pub open spec fn fsub(a: nat, b: nat) -> nat {
    ((a - b) % (FIELD_MODULUS as int)) as nat
}

pub open spec fn fmul(a: nat, b: nat) -> nat {
    (a * b) % (FIELD_MODULUS as nat)
}

/// The multiplicative inverse by Fermat's little theorem (zero maps to zero).
pub open spec fn finv(a: nat) -> nat {
    (pow(a as int, (FIELD_MODULUS - 2) as nat) % (FIELD_MODULUS as int)) as nat
}

/// The field element whose value is `n` reduced mod the field order.
pub closed spec fn fr_of(n: nat) -> Fr {
    Fr { v: (n % (FIELD_MODULUS as nat)) as u64 }
}

pub broadcast proof fn lemma_fr_of_view(n: nat)
    ensures
        #[trigger] fr_of(n)@ == n % (FIELD_MODULUS as nat),
{
}

/// An element of the scalar field, held in canonical form.
#[derive(Clone, Copy, Debug, PartialEq, Eq, Structural)]
pub struct Fr {
    v: u64,
}

impl View for Fr {
    type V = nat;

    closed spec fn view(&self) -> nat {
        (self.v % FIELD_MODULUS) as nat
    }
}

impl Fr {
    #[verifier::type_invariant]
    spec fn canonical(self) -> bool {
        self.v < FIELD_MODULUS
    }

    pub proof fn lemma_range(self)
        ensures
            self@ < FIELD_MODULUS,
    {
    }

    /// The canonical representative.
    pub fn value(&self) -> (r: u64)
        ensures
            r as nat == self@,
            r < FIELD_MODULUS,
    {
        proof {
            use_type_invariant(self);
        }
        self.v
    }

    /// Marks `self` as the canonical element of its value.
    pub fn check_canonical(&self)
        ensures
            fr_of(self@) == *self,
    {
        proof {
            use_type_invariant(self);
        }
    }

    /// Equality of the elements denoted.
    pub fn equals(&self, o: &Fr) -> (r: bool)
        ensures
            r <==> self@ == o@,
    {
        proof {
            use_type_invariant(self);
            use_type_invariant(o);
        }
        self.v == o.v
    }

    pub fn zero() -> (r: Fr)
        ensures
            r@ == 0,
    {
        Fr { v: 0 }
    }

    pub fn one() -> (r: Fr)
        ensures
            r@ == 1,
    {
        Fr { v: 1 }
    }

    pub fn from_u64(x: u64) -> (r: Fr)
        ensures
            r@ == (x as nat) % (FIELD_MODULUS as nat),
    {
        Fr { v: x % FIELD_MODULUS }
    }

    pub fn add(&self, o: &Fr) -> (r: Fr)
        ensures
            r@ == fadd(self@, o@),
    {
        proof {
            use_type_invariant(self);
            use_type_invariant(o);
        }
        Fr { v: ((self.v as u128 + o.v as u128) % (FIELD_MODULUS as u128)) as u64 }
    }

    pub fn sub(&self, o: &Fr) -> (r: Fr)
        ensures
            r@ == fsub(self@, o@),
    {
        proof {
            use_type_invariant(self);
            use_type_invariant(o);
            lemma_mod_multiples_vanish(1, self.v - o.v, FIELD_MODULUS as int);
        }
        Fr { v: ((self.v as u128 + FIELD_MODULUS as u128 - o.v as u128) % (FIELD_MODULUS as u128)) as u64 }
    }

    pub fn mul(&self, o: &Fr) -> (r: Fr)
        ensures
            r@ == fmul(self@, o@),
    {
        proof {
            use_type_invariant(self);
            use_type_invariant(o);
            lemma_mul_bound_u64(self.v, o.v);
        }
        Fr { v: ((self.v as u128 * o.v as u128) % (FIELD_MODULUS as u128)) as u64 }
    }

    pub fn inverse(&self) -> (r: Fr)
        ensures
            r@ == finv(self@),
    {
        proof {
            use_type_invariant(self);
        }
        Fr { v: pow_mod(self.v, FIELD_MODULUS - 2, FIELD_MODULUS) }
    }

    /// The canonical encoding: eight bytes, least significant first.
    pub fn to_bytes(&self) -> (r: Vec<u8>)
        ensures
            r@ == le_bytes(self@, 8),
            r@.len() == 8,
    {
        proof {
            use_type_invariant(self);
            lemma_le_bytes_len(self.v as nat, 8);
        }
        u64_le_bytes(self.v)
    }

    /// Reads a canonical encoding; `None` unless `b` is eight bytes that denote
    /// a number below the modulus.
    pub fn from_bytes(b: &[u8]) -> (r: Option<Fr>)
        ensures
            r is Some <==> (b@.len() == 8 && le_value(b@) < FIELD_MODULUS),
            r is Some ==> r->0@ == le_value(b@),
    {
        if b.len() != 8 {
            return None;
        }
        let v = le_value_mod(b, FIELD_MODULUS);
        let enc = u64_le_bytes(v);
        proof {
            lemma_byte_bound_8();
            lemma_le_round_trip(v as nat, 8);
            lemma_le_bytes_len(v as nat, 8);
            if le_value(b@) < FIELD_MODULUS {
                assert(le_value(b@) % (FIELD_MODULUS as nat) == le_value(b@));
                lemma_le_round_trip_bytes(b@);
            }
        }
        if bytes_eq(&enc, b) {
            Some(Fr { v })
        } else {
            None
        }
    }

    /// Maps a challenge buffer to a field element: the number it denotes
    /// (least significant byte first) reduced mod the field order.
    pub fn from_random_bytes(b: &[u8]) -> (r: Fr)
        ensures
            r@ == le_value(b@) % (FIELD_MODULUS as nat),
    {
        Fr { v: le_value_mod(b, FIELD_MODULUS) }
    }
}

/// Eight bytes are the encoding of the number they denote.
pub proof fn lemma_le_round_trip_bytes(s: Seq<u8>)
    requires
        s.len() == 8,
    ensures
        le_bytes(le_value(s), 8) == s,
{
    lemma_bytes_of_value(s);
}

proof fn lemma_bytes_of_value(s: Seq<u8>)
    ensures
        le_bytes(le_value(s), s.len()) == s,
    decreases s.len(),
{
    if s.len() > 0 {
        let t = s.drop_first();
        lemma_bytes_of_value(t);
        let v = le_value(s);
        assert(v % 256 == s[0] as nat);
        assert(v / 256 == le_value(t));
        assert(le_bytes(v, s.len()) =~= s);
    } else {
        assert(le_bytes(le_value(s), 0) =~= s);
    }
}

pub fn bytes_eq(a: &Vec<u8>, b: &[u8]) -> (r: bool)
    ensures
        r <==> a@ == b@,
{
    if a.len() != b.len() {
        return false;
    }
    let mut i: usize = 0;
    while i < a.len()
        invariant
            a@.len() == b@.len(),
            i <= a@.len(),
            forall|j: int| 0 <= j < i ==> a@[j] == b@[j],
        decreases a@.len() - i,
    {
        if a[i] != b[i] {
            return false;
        }
        i = i + 1;
    }
    assert(a@ =~= b@);
    true
}

} // verus!

verus! {

/// Decoding the encoding of a field element gives the element back: the
/// eight bytes that `to_bytes` yields denote the element's value, which is
/// below the modulus, so `from_bytes` accepts them and returns that value.
pub proof fn lemma_fr_round_trip(x: Fr)
    ensures
        le_bytes(x@, 8).len() == 8,
        le_value(le_bytes(x@, 8)) == x@,
        le_value(le_bytes(x@, 8)) < FIELD_MODULUS,
{
    x.lemma_range();
    lemma_byte_bound_8();
    lemma_le_bytes_len(x@, 8);
    lemma_le_round_trip(x@, 8);
}

} // verus!
