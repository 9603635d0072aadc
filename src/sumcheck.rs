use crate::commitments::{
    commit_one, commit_value, lemma_pedersen_single, pedersen, poly_commit_vec,
    MultiCommitmentSetupParameters,
};
use crate::errors::SynthesisError;
use crate::field::{fadd, fmul, fr_of, Fr};
use crate::group::{gexp, gop, GroupElem};
use crate::poly::{evaluate_poly, horner};
use crate::proofs::{SumCheckEvalProof, SumCheckProof};
use crate::sigma::verdict;
use crate::codec::le_bytes;
use crate::inner_product::fr_views;
use crate::transcript::{
    absorb_op, append_point, append_scalars, challenge_scalar, challenge_scalar_of, scalar_ops,
    squeeze_op, History, ProofTranscript, CHALLENGE_BYTES,
};
use vstd::prelude::*;

verus! {

/// `r^i` in the field.
pub open spec fn fpow(r: nat, i: nat) -> nat
    decreases i,
{
    if i == 0 {
        1
    } else {
        fmul(fpow(r, (i - 1) as nat), r)
    }
}

/// The weight of coefficient `i` in `w0 * (p(0) + p(1)) + w1 * p(r)`.
pub open spec fn round_coeff(w0: nat, w1: nat, r: nat, i: nat) -> nat {
    if i == 0 {
        fadd(fadd(w0, fmul(w1, fpow(r, i))), w0)
    } else {
        fadd(w0, fmul(w1, fpow(r, i)))
    }
}

/// `sum_{i<n} z_i * round_coeff(i)`.
pub open spec fn round_dot(z: Seq<Fr>, w0: nat, w1: nat, r: nat, n: nat) -> nat
    decreases n,
{
    if n == 0 {
        0
    } else {
        fadd(round_dot(z, w0, w1, r, (n - 1) as nat), fmul(z[n - 1]@, round_coeff(w0, w1, r, (n - 1) as nat)))
    }
}

/// The two equations of one committed sumcheck round, under the combining
/// scalars `w0`, `w1`, the round challenge `r` and the challenge `c`.
pub open spec fn round_holds(
    gen_1: MultiCommitmentSetupParameters,
    gen_n: MultiCommitmentSetupParameters,
    commit_poly: GroupElem,
    commit_eval: GroupElem,
    commit_claim: GroupElem,
    proof: SumCheckEvalProof,
    r: nat,
    size: nat,
    w0: nat,
    w1: nat,
    c: nat,
) -> bool {
    let claim_value = gop(gexp(commit_claim@, w0), gexp(commit_eval@, w1));
    &&& gop(gexp(commit_poly@, c), proof.d_commit@) == pedersen(
        gen_n.generators@,
        proof.z@,
        gen_n.h,
        proof.z_delta,
    )
    &&& gop(gexp(claim_value, c), proof.dot_cd_commit@) == commit_value(
        gen_1.generators@,
        gen_1.h,
        round_dot(proof.z@, w0, w1, r, size),
        proof.z_beta@,
    )
}

/// Whether a committed sumcheck has `num_rounds` rounds, each with a
/// disclosed vector of `size` elements.
pub open spec fn sumcheck_shape_ok(proof: SumCheckProof, size: nat, num_rounds: nat) -> bool {
    &&& proof.comm_polys@.len() == num_rounds
    &&& proof.comm_evals@.len() == num_rounds
    &&& proof.proofs@.len() == num_rounds
    &&& forall|i: int| 0 <= i < num_rounds ==> (#[trigger] proof.proofs@[i]).z@.len() == size
}

/// Whether a committed sumcheck whose round polynomials have `size`
/// coefficients is one the protocol runs (`size` is 3 or 4) and the
/// generators cover it.
pub open spec fn sumcheck_params_ok(
    gen_1: MultiCommitmentSetupParameters,
    gen_n: MultiCommitmentSetupParameters,
    size: nat,
) -> bool {
    &&& size == 3 || size == 4
    &&& gen_1.generators@.len() >= 1
    &&& gen_n.generators@.len() >= size
}

/// The claim that round `i` starts from.
pub open spec fn round_claim(proof: SumCheckProof, commit_claim: GroupElem, i: int) -> GroupElem {
    if i == 0 {
        commit_claim
    } else {
        proof.comm_evals@[i - 1]
    }
}

/// The claim after the first `n` rounds of a cubic sumcheck started from
/// `claim`, with round challenges `r`; `None` where some round polynomial
/// `p` has `p(0) + p(1)` different from the claim it reduces.
pub open spec fn cubic_run(polys: Seq<Vec<Fr>>, claim: nat, r: Seq<Fr>, n: nat) -> Option<nat>
    decreases n,
{
    if n == 0 {
        Some(claim)
    } else {
        match cubic_run(polys, claim, r, (n - 1) as nat) {
            None => None,
            Some(cl) => {
                let p = polys[n - 1]@;
                if fadd(horner(p, 0), horner(p, 1)) == cl {
                    Some(horner(p, r[n - 1]@))
                } else {
                    None
                }
            },
        }
    }
}

/// Whether a cubic sumcheck has `num_rounds` polynomials of degree at most three.
pub open spec fn cubic_shape_ok(polys: Seq<Vec<Fr>>, num_rounds: nat) -> bool {
    polys.len() == num_rounds && forall|j: int| 0 <= j < polys.len() ==> (#[trigger] polys[j])@.len() <= 4
}

/// Checks one committed sumcheck round under the given challenges.
pub fn sum_check_round_check(
    gen_1: &MultiCommitmentSetupParameters,
    gen_n: &MultiCommitmentSetupParameters,
    commit_poly: &GroupElem,
    commit_eval: &GroupElem,
    commit_claim: &GroupElem,
    proof: &SumCheckEvalProof,
    r: &Fr,
    size: usize,
    w0: &Fr,
    w1: &Fr,
    c: &Fr,
) -> (res: Result<(), SynthesisError>)
    ensures
        (res == Err::<(), _>(SynthesisError::MalformedProof)) <==> proof.z@.len() != size,
        (res == Err::<(), _>(SynthesisError::ParameterMismatch)) <==> (proof.z@.len() == size
            && !sumcheck_params_ok(*gen_1, *gen_n, size as nat)),
        proof.z@.len() == size && sumcheck_params_ok(*gen_1, *gen_n, size as nat) ==> verdict(
            res,
            round_holds(
                *gen_1,
                *gen_n,
                *commit_poly,
                *commit_eval,
                *commit_claim,
                *proof,
                r@,
                size as nat,
                w0@,
                w1@,
                c@,
            ),
        ),
{
    if proof.z.len() != size {
        return Err(SynthesisError::MalformedProof);
    }
    if (size != 3 && size != 4) || gen_1.generators.len() < 1 || gen_n.generators.len() < size {
        return Err(SynthesisError::ParameterMismatch);
    }
    let claim_value = commit_claim.mul(w0).add(&commit_eval.mul(w1));
    // z . coeffs, with coeffs_i = w0 + w1 * r^i, and w0 once more at i = 0
    let mut rc = Fr::one();
    let mut sum = Fr::zero();
    let mut i: usize = 0;
    while i < size
        invariant
            i <= size,
            proof.z@.len() == size,
            rc@ == fpow(r@, i as nat),
            sum@ == round_dot(proof.z@, w0@, w1@, r@, i as nat),
        decreases size - i,
    {
        let mut coeff = w0.add(&w1.mul(&rc));
        if i == 0 {
            coeff = coeff.add(w0);
        }
        sum = sum.add(&proof.z[i].mul(&coeff));
        rc = rc.mul(r);
        i = i + 1;
    }
    let lhs1 = commit_poly.mul(c).add(&proof.d_commit);
    let rhs1 = match poly_commit_vec(&gen_n.generators, &proof.z, &gen_n.h, &proof.z_delta) {
        Ok(g) => g,
        Err(e) => {
            return Err(e);
        },
    };
    let lhs2 = claim_value.mul(c).add(&proof.dot_cd_commit);
    let rhs2 = match commit_one(gen_1, &sum, &proof.z_beta) {
        Ok(g) => g,
        Err(e) => {
            return Err(e);
        },
    };
    proof {
        lemma_pedersen_single(gen_1.generators@, sum, gen_1.h, proof.z_beta);
    }
    if lhs1.equals(&rhs1) && lhs2.equals(&rhs2) {
        Ok(())
    } else {
        Err(SynthesisError::CryptographicCheckFailed)
    }
}

/// The label the combining scalars of a round are drawn under.
pub open spec fn combine_label() -> Seq<char> {
    "combine_two_claims_to_one"@
}

/// The first combining scalar of a round whose check starts at record `h`.
pub open spec fn eval_w0(h: History) -> nat {
    challenge_scalar_of(h, combine_label())
}

/// The second combining scalar.
pub open spec fn eval_w1(h: History) -> nat {
    challenge_scalar_of(h.push(squeeze_op(combine_label(), CHALLENGE_BYTES as nat)), combine_label())
}

/// The record just before a round's challenge `c` is drawn.
pub open spec fn eval_pre_c(
    h: History,
    commit_poly: GroupElem,
    commit_eval: GroupElem,
    commit_claim: GroupElem,
    proof: SumCheckEvalProof,
) -> History {
    let sq = squeeze_op(combine_label(), CHALLENGE_BYTES as nat);
    let claim_value = gop(gexp(commit_claim@, eval_w0(h)), gexp(commit_eval@, eval_w1(h)));
    h.push(sq).push(sq).push(absorb_op("Cx"@, le_bytes(commit_poly@, 8))).push(
        absorb_op("Cy"@, le_bytes(claim_value, 8)),
    ).push(absorb_op("delta"@, le_bytes(proof.d_commit@, 8))).push(
        absorb_op("beta"@, le_bytes(proof.dot_cd_commit@, 8)),
    )
}

/// The round's challenge `c`.
pub open spec fn eval_c(
    h: History,
    commit_poly: GroupElem,
    commit_eval: GroupElem,
    commit_claim: GroupElem,
    proof: SumCheckEvalProof,
) -> nat {
    challenge_scalar_of(eval_pre_c(h, commit_poly, commit_eval, commit_claim, proof), "c"@)
}

/// The record after a round's check.
pub open spec fn eval_post(
    h: History,
    commit_poly: GroupElem,
    commit_eval: GroupElem,
    commit_claim: GroupElem,
    proof: SumCheckEvalProof,
) -> History {
    eval_pre_c(h, commit_poly, commit_eval, commit_claim, proof).push(
        squeeze_op("c"@, CHALLENGE_BYTES as nat),
    )
}

/// The round check at the challenges drawn from record `h`.
pub open spec fn eval_holds(
    gen_1: MultiCommitmentSetupParameters,
    gen_n: MultiCommitmentSetupParameters,
    h: History,
    commit_poly: GroupElem,
    commit_eval: GroupElem,
    commit_claim: GroupElem,
    proof: SumCheckEvalProof,
    r: nat,
    size: nat,
) -> bool {
    round_holds(
        gen_1,
        gen_n,
        commit_poly,
        commit_eval,
        commit_claim,
        proof,
        r,
        size,
        eval_w0(h),
        eval_w1(h),
        eval_c(h, commit_poly, commit_eval, commit_claim, proof),
    )
}

/// One committed sumcheck round: draws the combining scalars and the
/// challenge `c` from the transcript and checks the round at `r`.
pub fn sum_check_eval_verify(
    gen_1: &MultiCommitmentSetupParameters,
    gen_n: &MultiCommitmentSetupParameters,
    commit_poly: &GroupElem,
    commit_eval: &GroupElem,
    commit_claim: &GroupElem,
    proof: &SumCheckEvalProof,
    r: &Fr,
    size: usize,
    transcript: &mut ProofTranscript,
) -> (res: Result<(), SynthesisError>)
    ensures
        (res == Err::<(), _>(SynthesisError::MalformedProof)) <==> proof.z@.len() != size,
        (res == Err::<(), _>(SynthesisError::ParameterMismatch)) <==> (proof.z@.len() == size
            && !sumcheck_params_ok(*gen_1, *gen_n, size as nat)),
        proof.z@.len() == size && sumcheck_params_ok(*gen_1, *gen_n, size as nat) ==> {
            &&& verdict(
                res,
                eval_holds(
                    *gen_1,
                    *gen_n,
                    old(transcript).history(),
                    *commit_poly,
                    *commit_eval,
                    *commit_claim,
                    *proof,
                    r@,
                    size as nat,
                ),
            )
            &&& final(transcript).history() == eval_post(
                old(transcript).history(),
                *commit_poly,
                *commit_eval,
                *commit_claim,
                *proof,
            )
        },
{
    if proof.z.len() != size {
        return Err(SynthesisError::MalformedProof);
    }
    if (size != 3 && size != 4) || gen_1.generators.len() < 1 || gen_n.generators.len() < size {
        return Err(SynthesisError::ParameterMismatch);
    }
    let w0 = challenge_scalar(transcript, "combine_two_claims_to_one");
    let w1 = challenge_scalar(transcript, "combine_two_claims_to_one");
    append_point(transcript, "Cx", commit_poly);
    let claim_value = commit_claim.mul(&w0).add(&commit_eval.mul(&w1));
    append_point(transcript, "Cy", &claim_value);
    append_point(transcript, "delta", &proof.d_commit);
    append_point(transcript, "beta", &proof.dot_cd_commit);
    let c = challenge_scalar(transcript, "c");
    sum_check_round_check(
        gen_1,
        gen_n,
        commit_poly,
        commit_eval,
        commit_claim,
        proof,
        r,
        size,
        &w0,
        &w1,
        &c,
    )
}

/// The record at the start of round `k` of a committed sumcheck from
/// record `h` and claim `claim`.
pub open spec fn sc_history(h: History, proof: SumCheckProof, claim: GroupElem, k: nat) -> History
    decreases k, 0nat,
{
    if k == 0 {
        h
    } else {
        let j = (k - 1) as int;
        eval_post(
            sc_pre_eval(h, proof, claim, j as nat),
            proof.comm_polys@[j],
            proof.comm_evals@[j],
            round_claim(proof, claim, j),
            proof.proofs@[j],
        )
    }
}

/// The record just before round `k`'s challenge is drawn.
pub open spec fn sc_pre_r(h: History, proof: SumCheckProof, claim: GroupElem, k: nat) -> History
    decreases k, 1nat,
{
    sc_history(h, proof, claim, k).push(
        absorb_op("comm_poly"@, le_bytes(proof.comm_polys@[k as int]@, 8)),
    )
}

/// Round `k`'s challenge.
pub open spec fn sc_r(h: History, proof: SumCheckProof, claim: GroupElem, k: nat) -> nat {
    challenge_scalar_of(sc_pre_r(h, proof, claim, k), "challenge_nextround"@)
}

/// The record at which round `k`'s check starts.
pub open spec fn sc_pre_eval(h: History, proof: SumCheckProof, claim: GroupElem, k: nat) -> History
    decreases k, 2nat,
{
    sc_pre_r(h, proof, claim, k).push(squeeze_op("challenge_nextround"@, CHALLENGE_BYTES as nat)).push(
        absorb_op("comm_claim_per_round"@, le_bytes(round_claim(proof, claim, k as int)@, 8)),
    ).push(absorb_op("comm_eval"@, le_bytes(proof.comm_evals@[k as int]@, 8)))
}

/// Round `k` holds at the challenges the transcript yields.
pub open spec fn sc_round_ok(
    gen_1: MultiCommitmentSetupParameters,
    gen_n: MultiCommitmentSetupParameters,
    h: History,
    proof: SumCheckProof,
    claim: GroupElem,
    size: nat,
    k: nat,
) -> bool {
    eval_holds(
        gen_1,
        gen_n,
        sc_pre_eval(h, proof, claim, k),
        proof.comm_polys@[k as int],
        proof.comm_evals@[k as int],
        round_claim(proof, claim, k as int),
        proof.proofs@[k as int],
        sc_r(h, proof, claim, k),
        size,
    )
}

/// Every round of a committed sumcheck from record `h` holds.
pub open spec fn sc_accepted(
    gen_1: MultiCommitmentSetupParameters,
    gen_n: MultiCommitmentSetupParameters,
    h: History,
    proof: SumCheckProof,
    claim: GroupElem,
    size: nat,
    n: nat,
) -> bool {
    forall|k: nat| k < n ==> #[trigger] sc_round_ok(gen_1, gen_n, h, proof, claim, size, k)
}

/// The challenges of a committed sumcheck of `n` rounds from record `h`.
pub open spec fn sc_point(h: History, proof: SumCheckProof, claim: GroupElem, n: nat) -> Seq<nat> {
    Seq::new(n, |k: int| sc_r(h, proof, claim, k as nat))
}

/// The challenges of a committed sumcheck, as field elements.
pub open spec fn sc_point_fr(h: History, proof: SumCheckProof, claim: GroupElem, n: nat) -> Seq<Fr> {
    Seq::new(n, |k: int| fr_of(sc_r(h, proof, claim, k as nat)))
}

/// Verifies a committed sumcheck of `num_rounds` rounds whose round
/// polynomials have `size` coefficients, starting from `commit_claim`.
/// Returns the round challenges and the commitment to the final evaluation.
pub fn sum_check_verify(
    gen_1: &MultiCommitmentSetupParameters,
    gen_n: &MultiCommitmentSetupParameters,
    proof: &SumCheckProof,
    commit_claim: &GroupElem,
    size: usize,
    num_rounds: usize,
    transcript: &mut ProofTranscript,
) -> (res: Result<(Vec<Fr>, GroupElem), SynthesisError>)
    ensures
        (res is Err && res->Err_0 == SynthesisError::MalformedProof) <==> !sumcheck_shape_ok(
            *proof,
            size as nat,
            num_rounds as nat,
        ),
        (res is Err && res->Err_0 == SynthesisError::ParameterMismatch) <==> (sumcheck_shape_ok(
            *proof,
            size as nat,
            num_rounds as nat,
        ) && !sumcheck_params_ok(*gen_1, *gen_n, size as nat)),
        res is Err ==> res->Err_0 != SynthesisError::MissingAssignment,
        sumcheck_shape_ok(*proof, size as nat, num_rounds as nat) && sumcheck_params_ok(
            *gen_1,
            *gen_n,
            size as nat,
        ) ==> (res is Ok <==> sc_accepted(
            *gen_1,
            *gen_n,
            old(transcript).history(),
            *proof,
            *commit_claim,
            size as nat,
            num_rounds as nat,
        )),
        res is Ok ==> {
            let (rx, e) = res->Ok_0;
            &&& fr_views(rx@) == sc_point(old(transcript).history(), *proof, *commit_claim, num_rounds as nat)
            &&& rx@ == sc_point_fr(old(transcript).history(), *proof, *commit_claim, num_rounds as nat)
            &&& rx@.len() == num_rounds
            &&& e == round_claim(*proof, *commit_claim, num_rounds as int)
            &&& final(transcript).history() == sc_history(
                old(transcript).history(),
                *proof,
                *commit_claim,
                num_rounds as nat,
            )
        },
{
    if !sumcheck_shape_check(proof, size, num_rounds) {
        return Err(SynthesisError::MalformedProof);
    }
    if (size != 3 && size != 4) || gen_1.generators.len() < 1 || gen_n.generators.len() < size {
        return Err(SynthesisError::ParameterMismatch);
    }
    let ghost h0 = transcript.history();
    let mut claim = *commit_claim;
    let mut rx: Vec<Fr> = Vec::new();
    let mut i: usize = 0;
    while i < num_rounds
        invariant
            i <= num_rounds,
            sumcheck_shape_ok(*proof, size as nat, num_rounds as nat),
            sumcheck_params_ok(*gen_1, *gen_n, size as nat),
            rx@.len() == i,
            claim == round_claim(*proof, *commit_claim, i as int),
            h0 == old(transcript).history(),
            transcript.history() == sc_history(h0, *proof, *commit_claim, i as nat),
            forall|k: int| 0 <= k < i ==> (#[trigger] rx@[k])@ == sc_r(h0, *proof, *commit_claim, k as nat),
            forall|k: int| 0 <= k < i ==> (#[trigger] rx@[k]) == fr_of(sc_r(h0, *proof, *commit_claim, k as nat)),
            forall|k: nat| k < i ==> #[trigger] sc_round_ok(
                *gen_1,
                *gen_n,
                h0,
                *proof,
                *commit_claim,
                size as nat,
                k,
            ),
        decreases num_rounds - i,
    {
        let commit_poly = proof.comm_polys[i];
        let commit_eval = proof.comm_evals[i];
        append_point(transcript, "comm_poly", &commit_poly);
        proof {
            assert(transcript.history() == sc_pre_r(h0, *proof, *commit_claim, i as nat));
        }
        let r_i = challenge_scalar(transcript, "challenge_nextround");
        assert(r_i@ == sc_r(h0, *proof, *commit_claim, i as nat));
        append_point(transcript, "comm_claim_per_round", &claim);
        append_point(transcript, "comm_eval", &commit_eval);
        proof {
            assert(transcript.history() == sc_pre_eval(h0, *proof, *commit_claim, i as nat));
        }
        let res = sum_check_eval_verify(
            gen_1,
            gen_n,
            &commit_poly,
            &commit_eval,
            &claim,
            &proof.proofs[i],
            &r_i,
            size,
            transcript,
        );
        if res.is_err() {
            assert(!sc_round_ok(*gen_1, *gen_n, h0, *proof, *commit_claim, size as nat, i as nat));
            assert(!sc_accepted(*gen_1, *gen_n, h0, *proof, *commit_claim, size as nat, num_rounds as nat));
            return Err(SynthesisError::CryptographicCheckFailed);
        }
        assert(sc_round_ok(*gen_1, *gen_n, h0, *proof, *commit_claim, size as nat, i as nat));
        assert(transcript.history() == sc_history(h0, *proof, *commit_claim, (i + 1) as nat));
        rx.push(r_i);
        claim = commit_eval;
        i = i + 1;
    }
    proof {
        assert(fr_views(rx@) =~= sc_point(h0, *proof, *commit_claim, num_rounds as nat));
        assert(rx@ =~= sc_point_fr(h0, *proof, *commit_claim, num_rounds as nat));
    }
    Ok((rx, claim))
}

} // verus!

verus! {

/// Runs the round checks of a cubic sumcheck from `claim` at the challenges
/// `r`: the final claim, or `None` where a round polynomial does not sum to
/// the claim it reduces.
pub fn cubic_check(polys: &Vec<Vec<Fr>>, claim: &Fr, r: &Vec<Fr>) -> (res: Option<Fr>)
    requires
        polys@.len() == r@.len(),
    ensures
        cubic_run(polys@, claim@, r@, r@.len()) is None ==> res is None,
        cubic_run(polys@, claim@, r@, r@.len()) is Some ==> res is Some && res->0@ == cubic_run(
            polys@,
            claim@,
            r@,
            r@.len(),
        )->0,
{
    let zero = Fr::zero();
    let one = Fr::one();
    let mut cur = *claim;
    let mut i: usize = 0;
    while i < r.len()
        invariant
            i <= r@.len(),
            polys@.len() == r@.len(),
            zero@ == 0,
            one@ == 1,
            cubic_run(polys@, claim@, r@, i as nat) == Some(cur@),
        decreases r@.len() - i,
    {
        let poly = &polys[i];
        let at0 = evaluate_poly(poly, &zero);
        let at1 = evaluate_poly(poly, &one);
        if !at0.add(&at1).equals(&cur) {
            proof {
                lemma_cubic_run_none_stays(polys@, claim@, r@, (i + 1) as nat, r@.len());
            }
            return None;
        }
        cur = evaluate_poly(poly, &r[i]);
        i = i + 1;
    }
    Some(cur)
}

/// Once a cubic run fails it stays failed.
pub proof fn lemma_cubic_run_none_stays(polys: Seq<Vec<Fr>>, claim: nat, r: Seq<Fr>, k: nat, n: nat)
    requires
        k <= n,
        cubic_run(polys, claim, r, k) is None,
    ensures
        cubic_run(polys, claim, r, n) is None,
    decreases n - k,
{
    if k < n {
        lemma_cubic_run_none_stays(polys, claim, r, k + 1, n);
    }
}

} // verus!

verus! {

/// Whether a committed sumcheck has `num_rounds` rounds of `size` elements.
pub fn sumcheck_shape_check(proof: &SumCheckProof, size: usize, num_rounds: usize) -> (r: bool)
    ensures
        r == sumcheck_shape_ok(*proof, size as nat, num_rounds as nat),
{
    if proof.comm_polys.len() != num_rounds || proof.comm_evals.len() != num_rounds
        || proof.proofs.len() != num_rounds {
        return false;
    }
    let mut j: usize = 0;
    while j < num_rounds
        invariant
            j <= num_rounds,
            proof.proofs@.len() == num_rounds,
            forall|i: int| 0 <= i < j ==> (#[trigger] proof.proofs@[i]).z@.len() == size,
        decreases num_rounds - j,
    {
        if proof.proofs[j].z.len() != size {
            return false;
        }
        j = j + 1;
    }
    true
}

} // verus!

verus! {

/// The transcript's record just before the challenge of round `j` of a
/// cubic sumcheck is drawn, from the record `h` at its start: each round
/// absorbs its polynomial's coefficients, then draws its challenge.
pub open spec fn cubic_history(h: History, polys: Seq<Vec<Fr>>, j: nat) -> History
    decreases j,
{
    if j == 0 {
        h + scalar_ops("comm_poly"@, polys[0]@)
    } else {
        cubic_history(h, polys, (j - 1) as nat).push(
            squeeze_op("challenge_nextround"@, CHALLENGE_BYTES as nat),
        ) + scalar_ops("comm_poly"@, polys[j as int]@)
    }
}

/// The record after all `n` rounds of a cubic sumcheck.
pub open spec fn cubic_post(h: History, polys: Seq<Vec<Fr>>, n: nat) -> History {
    if n == 0 {
        h
    } else {
        cubic_history(h, polys, (n - 1) as nat).push(
            squeeze_op("challenge_nextround"@, CHALLENGE_BYTES as nat),
        )
    }
}

/// The challenges a cubic sumcheck started from the record `h` draws.
pub open spec fn cubic_rs(h: History, polys: Seq<Vec<Fr>>) -> Seq<Fr> {
    Seq::new(
        polys.len(),
        |j: int| fr_of(challenge_scalar_of(cubic_history(h, polys, j as nat), "challenge_nextround"@)),
    )
}

/// Verifies a cubic sumcheck over plain round polynomials, starting from
/// `claim`: draws each round's challenge after absorbing its polynomial,
/// then runs the round checks. Returns the challenges and the final claim.
pub fn sum_check_cubic_verify(
    polys: &Vec<Vec<Fr>>,
    num_rounds: usize,
    claim: &Fr,
    transcript: &mut ProofTranscript,
) -> (res: Result<(Vec<Fr>, Fr), SynthesisError>)
    ensures
        (res is Err && res->Err_0 == SynthesisError::MalformedProof) <==> !cubic_shape_ok(
            polys@,
            num_rounds as nat,
        ),
        cubic_shape_ok(polys@, num_rounds as nat) ==> final(transcript).history() == cubic_post(
            old(transcript).history(),
            polys@,
            num_rounds as nat,
        ),
        cubic_shape_ok(polys@, num_rounds as nat) ==> {
            let rv = cubic_rs(old(transcript).history(), polys@);
            &&& (res is Ok <==> cubic_run(polys@, claim@, rv, rv.len()) is Some)
            &&& res is Err ==> res->Err_0 == SynthesisError::CryptographicCheckFailed
            &&& res is Ok ==> res->Ok_0.0@ == rv && res->Ok_0.1@ == cubic_run(
                polys@,
                claim@,
                rv,
                rv.len(),
            )->0
        },
{
    if polys.len() != num_rounds {
        return Err(SynthesisError::MalformedProof);
    }
    let mut j: usize = 0;
    while j < num_rounds
        invariant
            j <= num_rounds,
            polys@.len() == num_rounds,
            forall|i: int| 0 <= i < j ==> (#[trigger] polys@[i])@.len() <= 4,
        decreases num_rounds - j,
    {
        if polys[j].len() > 4 {
            return Err(SynthesisError::MalformedProof);
        }
        j = j + 1;
    }
    let ghost h0 = transcript.history();
    let mut r: Vec<Fr> = Vec::new();
    let mut i: usize = 0;
    while i < num_rounds
        invariant
            i <= num_rounds,
            polys@.len() == num_rounds,
            r@.len() == i,
            transcript.history() == cubic_post(h0, polys@, i as nat),
            forall|k: int|
                0 <= k < i ==> (#[trigger] r@[k]) == fr_of(challenge_scalar_of(
                    cubic_history(h0, polys@, k as nat),
                    "challenge_nextround"@,
                )),
        decreases num_rounds - i,
    {
        append_scalars(transcript, "comm_poly", &polys[i]);
        proof {
            if i == 0 {
                assert(transcript.history() == cubic_history(h0, polys@, 0));
            } else {
                assert(transcript.history() == cubic_history(h0, polys@, i as nat));
            }
        }
        let r_j = challenge_scalar(transcript, "challenge_nextround");
        r.push(r_j);
        i = i + 1;
    }
    proof {
        assert(r@ =~= cubic_rs(h0, polys@));
    }
    match cubic_check(polys, claim, &r) {
        Some(e) => Ok((r, e)),
        None => Err(SynthesisError::CryptographicCheckFailed),
    }
}

} // verus!
