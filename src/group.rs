use crate::codec::{le_bytes, le_value, le_value_mod, lemma_byte_bound_8, lemma_le_bytes_len, lemma_le_round_trip, u64_le_bytes};
use crate::field::{bytes_eq, lemma_le_round_trip_bytes, Fr, FIELD_MODULUS};
use crate::modular::{lemma_mul_bound_u64, pow_mod};
use vstd::arithmetic::power::pow;
use vstd::prelude::*;

verus! {

/// The safe prime `2 * FIELD_MODULUS + 1`; the group is the subgroup of
/// squares mod this prime, whose order is `FIELD_MODULUS`. At 62 bits its
/// discrete logarithms are within reach of generic attacks: the group
/// exercises the protocol's algebra, it does not make commitments binding
/// against a determined adversary.
pub const GROUP_MODULUS: u64 = 9223372036854771239;

/// The group law, written additively in the rest of the crate.
pub open spec fn gop(a: nat, b: nat) -> nat {
    (a * b) % (GROUP_MODULUS as nat)
}

/// Scalar multiplication: `a` taken `k` times under the group law.
pub open spec fn gexp(a: nat, k: nat) -> nat {
    (pow(a as int, k) % (GROUP_MODULUS as int)) as nat
}

/// The inverse of `a` under the group law.
pub open spec fn ginv(a: nat) -> nat {
    (pow(a as int, (GROUP_MODULUS - 2) as nat) % (GROUP_MODULUS as int)) as nat
}

/// `a - b`.
pub open spec fn gsub(a: nat, b: nat) -> nat {
    gop(a, ginv(b))
}

/// Whether `v` lies in the prime-order subgroup.
pub open spec fn in_subgroup(v: nat) -> bool {
    0 < v < GROUP_MODULUS && pow(v as int, FIELD_MODULUS as nat) % (GROUP_MODULUS as int) == 1
}

/// The group element whose value is `n` reduced mod the group prime.
pub closed spec fn ge_of(n: nat) -> GroupElem {
    GroupElem { v: (n % (GROUP_MODULUS as nat)) as u64 }
}

pub broadcast proof fn lemma_ge_of_view(n: nat)
    ensures
        #[trigger] ge_of(n)@ == n % (GROUP_MODULUS as nat),
{
}

/// An element of the commitment group, held in canonical form.
#[derive(Clone, Copy, Debug, PartialEq, Eq, Structural)]
pub struct GroupElem {
    v: u64,
}

impl View for GroupElem {
    type V = nat;

    closed spec fn view(&self) -> nat {
        (self.v % GROUP_MODULUS) as nat
    }
}

impl GroupElem {
    #[verifier::type_invariant]
    spec fn canonical(self) -> bool {
        self.v < GROUP_MODULUS
    }

    pub proof fn lemma_range(self)
        ensures
            self@ < GROUP_MODULUS,
    {
    }

    /// Marks `self` as the canonical element of its value.
    pub fn check_canonical(&self)
        ensures
            ge_of(self@) == *self,
    {
        proof {
            use_type_invariant(self);
        }
    }

    /// Equality of the elements denoted.
    pub fn equals(&self, o: &GroupElem) -> (r: bool)
        ensures
            r <==> self@ == o@,
    {
        proof {
            use_type_invariant(self);
            use_type_invariant(o);
        }
        self.v == o.v
    }

    /// The neutral element.
    pub fn zero() -> (r: GroupElem)
        ensures
            r@ == 1,
    {
        GroupElem { v: 1 }
    }

    /// The square of `x` mod the group prime: a member of the subgroup for
    /// every `x` that is not a multiple of the prime.
    pub fn from_seed(x: u64) -> (r: GroupElem)
        ensures
            r@ == gexp((x % GROUP_MODULUS) as nat, 2),
    {
        pow_mod_elem(x % GROUP_MODULUS, 2)
    }

    pub fn add(&self, o: &GroupElem) -> (r: GroupElem)
        ensures
            r@ == gop(self@, o@),
    {
        proof {
            use_type_invariant(self);
            use_type_invariant(o);
            lemma_mul_bound_u64(self.v, o.v);
        }
        GroupElem { v: ((self.v as u128 * o.v as u128) % (GROUP_MODULUS as u128)) as u64 }
    }

    pub fn neg(&self) -> (r: GroupElem)
        ensures
            r@ == ginv(self@),
    {
        proof {
            use_type_invariant(self);
        }
        pow_mod_elem(self.v, GROUP_MODULUS - 2)
    }

    pub fn sub(&self, o: &GroupElem) -> (r: GroupElem)
        ensures
            r@ == gsub(self@, o@),
    {
        let n = o.neg();
        self.add(&n)
    }

    /// Scalar multiplication by `k`.
    pub fn mul(&self, k: &Fr) -> (r: GroupElem)
        ensures
            r@ == gexp(self@, k@),
    {
        proof {
            use_type_invariant(self);
        }
        pow_mod_elem(self.v, k.value())
    }

    /// The canonical encoding: eight bytes, least significant first.
    pub fn to_bytes(&self) -> (r: Vec<u8>)
        ensures
            r@ == le_bytes(self@, 8),
            r@.len() == 8,
    {
        proof {
            use_type_invariant(self);
            lemma_le_bytes_len(self.v as nat, 8);
        }
        u64_le_bytes(self.v)
    }

    /// Reads a canonical encoding of a member of the subgroup.
    pub fn from_bytes(b: &[u8]) -> (r: Option<GroupElem>)
        ensures
            r is Some <==> (b@.len() == 8 && in_subgroup(le_value(b@))),
            r is Some ==> r->0@ == le_value(b@),
    {
        if b.len() != 8 {
            return None;
        }
        let v = le_value_mod(b, GROUP_MODULUS);
        let enc = u64_le_bytes(v);
        proof {
            lemma_byte_bound_8();
            lemma_le_round_trip(v as nat, 8);
            lemma_le_bytes_len(v as nat, 8);
            if le_value(b@) < GROUP_MODULUS {
                assert(le_value(b@) % (GROUP_MODULUS as nat) == le_value(b@));
                lemma_le_round_trip_bytes(b@);
            }
        }
        if !bytes_eq(&enc, b) || v == 0 {
            return None;
        }
        let order_check = pow_mod(v, FIELD_MODULUS, GROUP_MODULUS);
        if order_check != 1 {
            return None;
        }
        Some(GroupElem { v })
    }
}

fn pow_mod_elem(b: u64, e: u64) -> (r: GroupElem)
    requires
        b < GROUP_MODULUS,
    ensures
        r@ == gexp(b as nat, e as nat),
{
    let v = pow_mod(b, e, GROUP_MODULUS);
    GroupElem { v }
}

} // verus!

verus! {

/// Decoding the encoding of a member of the subgroup gives it back.
pub proof fn lemma_group_round_trip(g: GroupElem)
    requires
        in_subgroup(g@),
    ensures
        le_bytes(g@, 8).len() == 8,
        le_value(le_bytes(g@, 8)) == g@,
        in_subgroup(le_value(le_bytes(g@, 8))),
{
    lemma_byte_bound_8();
    lemma_le_bytes_len(g@, 8);
    lemma_le_round_trip(g@, 8);
}

} // verus!
