use crate::commitments::{commit_one, pedersen, poly_commit_vec, MultiCommitmentSetupParameters};
use crate::errors::SynthesisError;
use crate::field::{fr_of, Fr};
use crate::group::{gexp, gop, gsub, GroupElem};
use crate::proofs::{EqProof, KnowledgeProof, ProductProof};
use crate::codec::le_bytes;
use crate::transcript::{
    absorb_op, append_point, challenge_scalar, challenge_scalar_of, squeeze_op, History,
    ProofTranscript, CHALLENGE_BYTES,
};
use vstd::prelude::*;

verus! {

/// `r` is the verdict on a check that holds exactly when `holds` does.
pub open spec fn verdict(r: Result<(), SynthesisError>, holds: bool) -> bool {
    &&& (r is Ok <==> holds)
    &&& (r is Err ==> r->Err_0 == SynthesisError::CryptographicCheckFailed)
}

/// The Schnorr equation for knowledge of the opening of `commit` under
/// challenge `c`: `commit(z1; z2) == c * commit + t`.
pub open spec fn knowledge_holds(
    params: MultiCommitmentSetupParameters,
    proof: KnowledgeProof,
    commit: GroupElem,
    c: Fr,
) -> bool {
    pedersen(params.generators@, seq![proof.z1], params.h, proof.z2) == gop(
        gexp(commit@, c@),
        proof.t_commit@,
    )
}

/// The three equations of the product proof under challenge `c`.
pub open spec fn product_holds(
    params: MultiCommitmentSetupParameters,
    proof: ProductProof,
    va: GroupElem,
    vb: GroupElem,
    prod: GroupElem,
    c: Fr,
) -> bool {
    let z = proof.z@;
    &&& gop(proof.commit_alpha@, gexp(va@, c@)) == pedersen(
        params.generators@,
        seq![z[0]],
        params.h,
        z[1],
    )
    &&& gop(proof.commit_beta@, gexp(vb@, c@)) == pedersen(
        params.generators@,
        seq![z[2]],
        params.h,
        z[3],
    )
    &&& gop(proof.commit_delta@, gexp(prod@, c@)) == pedersen(seq![va], seq![z[2]], params.h, z[4])
}

/// The equation of the proof that two commitments open to the same value:
/// `z * h == c * (c1 - c2) + alpha`.
pub open spec fn eq_holds(
    params: MultiCommitmentSetupParameters,
    c1: GroupElem,
    c2: GroupElem,
    proof: EqProof,
    c: Fr,
) -> bool {
    gexp(params.h@, proof.z@) == gop(gexp(gsub(c1@, c2@), c@), proof.alpha@)
}

/// The record once the knowledge proof's commitments are absorbed.
pub open spec fn knowledge_history(h: History, commit: GroupElem, proof: KnowledgeProof) -> History {
    h.push(absorb_op("C"@, le_bytes(commit@, 8))).push(absorb_op("alpha"@, le_bytes(proof.t_commit@, 8)))
}

/// The record once the equality proof's commitments are absorbed.
pub open spec fn eq_history(h: History, c1: nat, c2: nat, proof: EqProof) -> History {
    h.push(absorb_op("C1"@, le_bytes(c1, 8))).push(absorb_op("C2"@, le_bytes(c2, 8))).push(
        absorb_op("alpha"@, le_bytes(proof.alpha@, 8)),
    )
}

/// The record once the product proof's commitments are absorbed.
pub open spec fn product_history(
    h: History,
    va: GroupElem,
    vb: GroupElem,
    prod: GroupElem,
    proof: ProductProof,
) -> History {
    h.push(absorb_op("X"@, le_bytes(va@, 8))).push(absorb_op("Y"@, le_bytes(vb@, 8))).push(
        absorb_op("Z"@, le_bytes(prod@, 8)),
    ).push(absorb_op("alpha"@, le_bytes(proof.commit_alpha@, 8))).push(
        absorb_op("beta"@, le_bytes(proof.commit_beta@, 8)),
    ).push(absorb_op("delta"@, le_bytes(proof.commit_delta@, 8)))
}

/// Checks the knowledge proof under challenge `c`.
pub fn knowledge_check(
    params: &MultiCommitmentSetupParameters,
    proof: &KnowledgeProof,
    commit: &GroupElem,
    c: &Fr,
) -> (r: Result<(), SynthesisError>)
    ensures
        (r == Err::<(), _>(SynthesisError::ParameterMismatch)) <==> params.generators@.len() < 1,
        params.generators@.len() >= 1 ==> verdict(r, knowledge_holds(*params, *proof, *commit, *c)),
{
    let lhs = commit_one(params, &proof.z1, &proof.z2)?;
    let rhs = commit.mul(c).add(&proof.t_commit);
    if lhs.equals(&rhs) {
        Ok(())
    } else {
        Err(SynthesisError::CryptographicCheckFailed)
    }
}

/// Verifies knowledge of the opening of `commit`, drawing the challenge
/// from the transcript.
pub fn knowledge_verify(
    params: &MultiCommitmentSetupParameters,
    proof: &KnowledgeProof,
    commit: &GroupElem,
    transcript: &mut ProofTranscript,
) -> (r: Result<(), SynthesisError>)
    ensures
        (r == Err::<(), _>(SynthesisError::ParameterMismatch)) <==> params.generators@.len() < 1,
        params.generators@.len() >= 1 ==> verdict(
            r,
            knowledge_holds(
                *params,
                *proof,
                *commit,
                fr_of(challenge_scalar_of(knowledge_history(old(transcript).history(), *commit, *proof), "c"@)),
            ),
        ),
        final(transcript).history() == knowledge_history(old(transcript).history(), *commit, *proof).push(
            squeeze_op("c"@, CHALLENGE_BYTES as nat),
        ),
{
    append_point(transcript, "C", commit);
    append_point(transcript, "alpha", &proof.t_commit);
    let c = challenge_scalar(transcript, "c");
    let r = knowledge_check(params, proof, commit, &c);
    proof {
        if params.generators@.len() >= 1 {
            assert(verdict(r, knowledge_holds(*params, *proof, *commit, c)));
        }
    }
    r
}

/// Checks the product proof under challenge `c`.
pub fn product_check(
    params: &MultiCommitmentSetupParameters,
    proof: &ProductProof,
    va: &GroupElem,
    vb: &GroupElem,
    prod: &GroupElem,
    c: &Fr,
) -> (r: Result<(), SynthesisError>)
    ensures
        (r == Err::<(), _>(SynthesisError::MalformedProof)) <==> proof.z@.len() != 5,
        (r == Err::<(), _>(SynthesisError::ParameterMismatch)) <==> (proof.z@.len() == 5
            && params.generators@.len() < 1),
        proof.z@.len() == 5 && params.generators@.len() >= 1 ==> verdict(
            r,
            product_holds(*params, *proof, *va, *vb, *prod, *c),
        ),
{
    if proof.z.len() != 5 {
        return Err(SynthesisError::MalformedProof);
    }
    let z = &proof.z;
    let rs1_lhs = proof.commit_alpha.add(&va.mul(c));
    let rs1_rhs = commit_one(params, &z[0], &z[1])?;
    let rs2_lhs = proof.commit_beta.add(&vb.mul(c));
    let rs2_rhs = commit_one(params, &z[2], &z[3])?;
    let rs3_lhs = proof.commit_delta.add(&prod.mul(c));
    let gens = vec![*va];
    let single = vec![z[2]];
    let rs3_rhs = poly_commit_vec(&gens, &single, &params.h, &z[4]);
    proof {
        assert(gens@ =~= seq![*va]);
        assert(single@ =~= seq![z@[2]]);
    }
    let rs3_rhs = match rs3_rhs {
        Ok(g) => g,
        Err(e) => {
            return Err(e);
        },
    };
    if rs1_lhs.equals(&rs1_rhs) && rs2_lhs.equals(&rs2_rhs) && rs3_lhs.equals(&rs3_rhs) {
        Ok(())
    } else {
        Err(SynthesisError::CryptographicCheckFailed)
    }
}

/// Verifies that `prod` commits to the product of what `va` and `vb`
/// commit to, drawing the challenge from the transcript.
pub fn product_verify(
    params: &MultiCommitmentSetupParameters,
    proof: &ProductProof,
    va: &GroupElem,
    vb: &GroupElem,
    prod: &GroupElem,
    transcript: &mut ProofTranscript,
) -> (r: Result<(), SynthesisError>)
    ensures
        (r == Err::<(), _>(SynthesisError::MalformedProof)) <==> proof.z@.len() != 5,
        (r == Err::<(), _>(SynthesisError::ParameterMismatch)) <==> (proof.z@.len() == 5
            && params.generators@.len() < 1),
        proof.z@.len() == 5 && params.generators@.len() >= 1 ==> verdict(
            r,
            product_holds(
                *params,
                *proof,
                *va,
                *vb,
                *prod,
                fr_of(challenge_scalar_of(product_history(old(transcript).history(), *va, *vb, *prod, *proof), "c"@)),
            ),
        ),
        proof.z@.len() == 5 ==> final(transcript).history() == product_history(
            old(transcript).history(),
            *va,
            *vb,
            *prod,
            *proof,
        ).push(squeeze_op("c"@, CHALLENGE_BYTES as nat)),
{
    if proof.z.len() != 5 {
        return Err(SynthesisError::MalformedProof);
    }
    append_point(transcript, "X", va);
    append_point(transcript, "Y", vb);
    append_point(transcript, "Z", prod);
    append_point(transcript, "alpha", &proof.commit_alpha);
    append_point(transcript, "beta", &proof.commit_beta);
    append_point(transcript, "delta", &proof.commit_delta);
    let c = challenge_scalar(transcript, "c");
    let r = product_check(params, proof, va, vb, prod, &c);
    proof {
        if params.generators@.len() >= 1 {
            assert(verdict(r, product_holds(*params, *proof, *va, *vb, *prod, c)));
        }
    }
    r
}

/// Checks the equality proof under challenge `c`.
pub fn eq_check(
    params: &MultiCommitmentSetupParameters,
    c1: &GroupElem,
    c2: &GroupElem,
    proof: &EqProof,
    c: &Fr,
) -> (r: Result<(), SynthesisError>)
    ensures
        verdict(r, eq_holds(*params, *c1, *c2, *proof, *c)),
{
    let lhs = params.h.mul(&proof.z);
    let rhs = c1.sub(c2).mul(c).add(&proof.alpha);
    if lhs.equals(&rhs) {
        Ok(())
    } else {
        Err(SynthesisError::CryptographicCheckFailed)
    }
}

/// Verifies that `c1` and `c2` commit to the same value, drawing the
/// challenge from the transcript.
pub fn eq_verify(
    params: &MultiCommitmentSetupParameters,
    c1: &GroupElem,
    c2: &GroupElem,
    proof: &EqProof,
    transcript: &mut ProofTranscript,
) -> (r: Result<(), SynthesisError>)
    ensures
        verdict(
            r,
            eq_holds(
                *params,
                *c1,
                *c2,
                *proof,
                fr_of(challenge_scalar_of(eq_history(old(transcript).history(), c1@, c2@, *proof), "c"@)),
            ),
        ),
        final(transcript).history() == eq_history(old(transcript).history(), c1@, c2@, *proof).push(
            squeeze_op("c"@, CHALLENGE_BYTES as nat),
        ),
{
    append_point(transcript, "C1", c1);
    append_point(transcript, "C2", c2);
    append_point(transcript, "alpha", &proof.alpha);
    let c = challenge_scalar(transcript, "c");
    let r = eq_check(params, c1, c2, proof, &c);
    assert(verdict(r, eq_holds(*params, *c1, *c2, *proof, c)));
    r
}

} // verus!
