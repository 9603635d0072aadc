use crate::errors::SynthesisError;
use crate::field::Fr;
use crate::group::{gexp, gop, GroupElem};
use vstd::prelude::*;

verus! {

/// `sum_{i<n} v_i * g_i`, in the additive notation of the group.
pub open spec fn msm_upto(gens: Seq<GroupElem>, v: Seq<Fr>, n: nat) -> nat
    decreases n,
{
    if n == 0 {
        1
    } else {
        gop(msm_upto(gens, v, (n - 1) as nat), gexp(gens[n - 1]@, v[n - 1]@))
    }
}

/// The Pedersen commitment `sum_i v_i * g_i + blind * h`.
pub open spec fn pedersen(gens: Seq<GroupElem>, v: Seq<Fr>, h: GroupElem, blind: Fr) -> nat {
    gop(msm_upto(gens, v, v.len()), gexp(h@, blind@))
}

/// The Pedersen commitment of the single value `x` under the first generator.
pub open spec fn commit_value(gens: Seq<GroupElem>, h: GroupElem, x: nat, blind: nat) -> nat {
    gop(gop(1, gexp(gens[0]@, x)), gexp(h@, blind))
}

pub proof fn lemma_pedersen_single(gens: Seq<GroupElem>, x: Fr, h: GroupElem, blind: Fr)
    ensures
        pedersen(gens, seq![x], h, blind) == commit_value(gens, h, x@, blind@),
{
    assert(msm_upto(gens, seq![x], 0) == 1);
}

/// Generators for Pedersen commitments to vectors of up to
/// `generators.len()` elements.
#[derive(Clone, Debug)]
pub struct MultiCommitmentSetupParameters {
    pub generators: Vec<GroupElem>,
    pub h: GroupElem,
}

/// Generators for committing to single values and to whole vectors.
#[derive(Clone, Debug)]
pub struct PolyCommitmentSetupParameters {
    pub gen_1: MultiCommitmentSetupParameters,
    pub gen_n: MultiCommitmentSetupParameters,
}

/// Generators for the sumcheck rounds: one value, and the three or four
/// coefficients of a round polynomial.
#[derive(Clone, Debug)]
pub struct SumCheckCommitmentSetupParameters {
    pub gen_1: MultiCommitmentSetupParameters,
    pub gen_3: MultiCommitmentSetupParameters,
    pub gen_4: MultiCommitmentSetupParameters,
}

#[derive(Clone, Debug)]
pub struct R1CSSatisfiedSetupParameters {
    pub sc_params: SumCheckCommitmentSetupParameters,
    pub pc_params: PolyCommitmentSetupParameters,
}

#[derive(Clone, Debug)]
pub struct R1CSEvalsSetupParameters {
    pub derefs_params: PolyCommitmentSetupParameters,
    pub ops_params: PolyCommitmentSetupParameters,
    pub mem_params: PolyCommitmentSetupParameters,
}

#[derive(Clone, Debug)]
pub struct SetupParametersWithSpark {
    pub r1cs_satisfied_params: R1CSSatisfiedSetupParameters,
    pub r1cs_eval_params: R1CSEvalsSetupParameters,
}

/// The Pedersen commitment of `v` with blinding `blind`; the generators
/// must cover the vector.
pub fn poly_commit_vec(gens: &Vec<GroupElem>, v: &Vec<Fr>, h: &GroupElem, blind: &Fr) -> (r: Result<
    GroupElem,
    SynthesisError,
>)
    ensures
        r is Ok <==> v@.len() <= gens@.len(),
        r is Ok ==> r->Ok_0@ == pedersen(gens@, v@, *h, *blind),
        r is Err ==> r->Err_0 == SynthesisError::ParameterMismatch,
{
    if v.len() > gens.len() {
        return Err(SynthesisError::ParameterMismatch);
    }
    let mut acc = GroupElem::zero();
    let mut i: usize = 0;
    while i < v.len()
        invariant
            i <= v@.len(),
            v@.len() <= gens@.len(),
            acc@ == msm_upto(gens@, v@, i as nat),
        decreases v@.len() - i,
    {
        acc = acc.add(&gens[i].mul(&v[i]));
        i = i + 1;
    }
    Ok(acc.add(&h.mul(blind)))
}

/// Commitment to a single value under the first generator.
pub fn commit_one(params: &MultiCommitmentSetupParameters, x: &Fr, blind: &Fr) -> (r: Result<
    GroupElem,
    SynthesisError,
>)
    ensures
        r is Ok <==> params.generators@.len() >= 1,
        r is Ok ==> r->Ok_0@ == pedersen(params.generators@, seq![*x], params.h, *blind),
        r is Err ==> r->Err_0 == SynthesisError::ParameterMismatch,
{
    let v = vec![*x];
    proof {
        assert(v@ =~= seq![*x]);
    }
    poly_commit_vec(&params.generators, &v, &params.h, blind)
}

impl MultiCommitmentSetupParameters {
    /// Generators derived from seeds: each is the square of its seed mod the
    /// group prime.
    pub fn from_seeds(seeds: &Vec<u64>, h_seed: u64) -> (r: MultiCommitmentSetupParameters)
        ensures
            r.generators@.len() == seeds@.len(),
            forall|i: int|
                0 <= i < seeds@.len() ==> (#[trigger] r.generators@[i])@ == gexp(
                    (seeds@[i] % crate::group::GROUP_MODULUS) as nat,
                    2,
                ),
            r.h@ == gexp((h_seed % crate::group::GROUP_MODULUS) as nat, 2),
    {
        let mut generators: Vec<GroupElem> = Vec::new();
        let mut i: usize = 0;
        while i < seeds.len()
            invariant
                i <= seeds@.len(),
                generators@.len() == i,
                forall|k: int|
                    0 <= k < i ==> (#[trigger] generators@[k])@ == gexp(
                        (seeds@[k] % crate::group::GROUP_MODULUS) as nat,
                        2,
                    ),
            decreases seeds@.len() - i,
        {
            generators.push(GroupElem::from_seed(seeds[i]));
            i = i + 1;
        }
        MultiCommitmentSetupParameters { generators, h: GroupElem::from_seed(h_seed) }
    }
}

} // verus!
