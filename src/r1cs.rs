use crate::commitments::{
    commit_one, commit_value, lemma_pedersen_single, MultiCommitmentSetupParameters,
    PolyCommitmentSetupParameters, R1CSSatisfiedSetupParameters, SetupParametersWithSpark,
};
use crate::errors::SynthesisError;
use crate::field::{fadd, fmul, fsub, Fr};
use crate::group::{gexp, gop, gsub, GroupElem};
use crate::inner_product::{dot_shape_check, dot_shape_ok, inner_product_verify, opening_holds};
use crate::poly::{chi, eq_prod, mle_upto, sparse_mle_upto, entries_in_range, eval_eq_x_y, evaluate_mle, evaluate_value, pow2_checked, two_pow};
use crate::proofs::{
    EncodeCommit, KnowledgeProductCommit, MemoryClaims, MatrixEvals, NIZKProof, R1CSInstance, R1CSSatProof,
    SNARKProof, SumCheckProof, EqProof,
};
use crate::sigma::{
    eq_check, knowledge_holds, knowledge_verify, product_holds, product_verify, verdict,
};
use crate::sparse::{sparse_accepted, sparse_poly_eval_verify, ProductLayerClaims};
use crate::sumcheck::{sum_check_verify, sumcheck_shape_check, sumcheck_shape_ok};
use crate::transcript::{
    absorb_op, append_point, append_points, append_scalar, challenge_scalar, challenge_scalar_of,
    challenge_scalars, point_ops, squeeze_op, squeezes, start_op, History, ProofTranscript,
    CHALLENGE_BYTES,
};
use crate::codec::le_bytes;
use crate::group::ge_of;
use crate::field::fr_of;
use crate::sigma::{eq_history, knowledge_history, product_history};
use crate::sumcheck::{round_claim, sc_accepted, sc_history, sc_point_fr};
use crate::inner_product::{fr_views, ip_c, ip_pre_c, ip_us};
use vstd::prelude::*;

verus! {

/// `k` is `ceil(log2(n))`: the least `k` with `2^k >= n`.
pub open spec fn is_ceil_log2(n: nat, k: nat) -> bool {
    two_pow(k) >= n && (k == 0 || two_pow((k - 1) as nat) < n)
}

/// `ceil(log2(n))`, or `None` where `2^k` would not fit in a `usize`.
pub fn ceil_log2(n: usize) -> (r: Option<usize>)
    ensures
        r is Some ==> is_ceil_log2(n as nat, r->0 as nat) && two_pow(r->0 as nat) <= usize::MAX,
        r is Some ==> r->0 < usize::MAX,
        r is None ==> forall|k: nat| #[trigger] two_pow(k) >= n ==> two_pow(k) > usize::MAX,
{
    let mut p: usize = 1;
    let mut k: usize = 0;
    assert(two_pow(0) == 1);
    while p < n
        invariant
            p == two_pow(k as nat),
            k < p,
            p >= 1,
            k == 0 || two_pow((k - 1) as nat) < n,
        decreases usize::MAX - p,
    {
        proof {
            crate::product_circuit::lemma_two_pow_gt((k + 1) as nat);
        }
        if p > usize::MAX / 2 {
            proof {
                assert forall|j: nat| #[trigger] two_pow(j) >= n implies two_pow(j) > usize::MAX by {
                    if j <= k {
                        crate::poly::lemma_two_pow_monotone(j, k as nat);
                    } else {
                        crate::poly::lemma_two_pow_monotone((k + 1) as nat, j);
                    }
                }
            }
            return None;
        }
        p = p * 2;
        k = k + 1;
    }
    Some(k)
}

/// The commitment a committed sumcheck of `n` rounds from `start` ends on.
pub open spec fn final_claim(proof: SumCheckProof, start: nat, n: nat) -> nat {
    if n == 0 {
        start
    } else {
        proof.comm_evals@[n - 1]@
    }
}

/// The equality proof that ends the first phase: `final_x` commits to
/// `eq(rx, tau) * (prod - Cz)`, under the challenge `c`.
pub open spec fn phase_one_holds(
    gen_1: MultiCommitmentSetupParameters,
    kpc: KnowledgeProductCommit,
    eq_proof: EqProof,
    rx: Seq<Fr>,
    tau: Seq<Fr>,
    final_x: nat,
    c: Fr,
) -> bool {
    let c1 = gexp(gsub(kpc.prod_commit@, kpc.vc_commit@), eq_prod(rx, tau));
    gexp(gen_1.h@, eq_proof.z@) == gop(gexp(gsub(c1, final_x), c@), eq_proof.alpha@)
}

/// `(1, inputs)` as a table, at the point `r`: `chi(r, 0) + sum_i inputs_i * chi(r, i + 1)`.
pub open spec fn io_mle_upto(inputs: Seq<Fr>, r: Seq<Fr>, n: nat) -> nat
    decreases n,
{
    if n == 0 {
        fadd(0, fmul(1, chi(r, 0)))
    } else {
        fadd(io_mle_upto(inputs, r, (n - 1) as nat), fmul(inputs[n - 1]@, chi(r, n)))
    }
}

/// `ra * a + rb * b + rc * c`.
pub open spec fn combined_evals(evals: MatrixEvals, ra: Fr, rb: Fr, rc: Fr) -> nat {
    fadd(fadd(fmul(evals.a@, ra@), fmul(evals.b@, rb@)), fmul(evals.c@, rc@))
}

/// The equality proof that ends the second phase: `final_y` commits to
/// `z(ry)` times the combined matrix evaluations, where `z(ry)` is the
/// witness value committed in `commit_ry` for `ry[0] = 0` and the public
/// part `(1, inputs)` for `ry[0] = 1`, under the challenge `c`.
pub open spec fn phase_two_holds(
    pc: PolyCommitmentSetupParameters,
    commit_ry: GroupElem,
    eq_proof: EqProof,
    inputs: Seq<Fr>,
    evals: MatrixEvals,
    ry: Seq<Fr>,
    ra: Fr,
    rb: Fr,
    rc: Fr,
    final_y: nat,
    c: Fr,
) -> bool {
    let c1 = phase_two_commit(pc, commit_ry, inputs, evals, ry, ra, rb, rc);
    gexp(pc.gen_1.h@, eq_proof.z@) == gop(gexp(gsub(c1, final_y), c@), eq_proof.alpha@)
}

/// `z(ry)` times the combined matrix evaluations, as a commitment.
pub open spec fn phase_two_commit(
    pc: PolyCommitmentSetupParameters,
    commit_ry: GroupElem,
    inputs: Seq<Fr>,
    evals: MatrixEvals,
    ry: Seq<Fr>,
    ra: Fr,
    rb: Fr,
    rc: Fr,
) -> nat {
    let ry0 = ry[0]@;
    let input_commit = commit_value(
        pc.gen_1.generators@,
        pc.gen_1.h,
        io_mle_upto(inputs, ry.drop_first(), inputs.len()),
        0,
    );
    let z_commit = gop(gexp(commit_ry@, fsub(1, ry0)), gexp(input_commit, ry0));
    gexp(z_commit, combined_evals(evals, ra, rb, rc))
}

/// Whether `ry` and the public inputs fit each other: `(1, inputs)` fits
/// in the public half of `z`.
pub open spec fn phase_two_fits(pc: PolyCommitmentSetupParameters, inputs_len: nat, ry_len: nat) -> bool {
    &&& ry_len >= 1
    &&& two_pow((ry_len - 1) as nat) <= usize::MAX
    &&& inputs_len < two_pow((ry_len - 1) as nat)
    &&& pc.gen_1.generators@.len() >= 1
}

/// Whether the setup parameters and the public inputs fit an instance
/// whose second sumcheck has `ny` rounds.
pub open spec fn r1cs_params_ok(params: R1CSSatisfiedSetupParameters, inputs_len: nat, ny: nat) -> bool {
    let tail = (ny - 1) as nat;
    &&& ny >= 1
    &&& params.sc_params.gen_1.generators@.len() >= 1
    &&& params.sc_params.gen_3.generators@.len() >= 3
    &&& params.sc_params.gen_4.generators@.len() >= 4
    &&& params.pc_params.gen_1.generators@.len() >= 1
    &&& params.pc_params.gen_n.generators@.len() >= two_pow((tail - tail / 2) as nat)
    &&& inputs_len < two_pow(tail)
}

/// Whether the proof has the shape for `nx` and `ny` sumcheck rounds.
pub open spec fn r1cs_shape_ok(proof: R1CSSatProof, nx: nat, ny: nat) -> bool {
    &&& sumcheck_shape_ok(proof.proof_one, 4, nx)
    &&& sumcheck_shape_ok(proof.proof_two, 3, ny)
    &&& proof.knowledge_product_proof.product_proof.z@.len() == 5
    &&& dot_shape_ok((ny - 1) as nat, proof.commit_witness@.len(), proof.product_proof)
}

pub proof fn lemma_io_mle(p: Seq<Fr>, inputs: Seq<Fr>, r: Seq<Fr>, k: nat)
    requires
        p.len() == inputs.len() + 1,
        p[0]@ == 1,
        forall|i: int| 0 <= i < inputs.len() ==> p[i + 1] == inputs[i],
        k <= inputs.len(),
    ensures
        mle_upto(p, r, k + 1) == io_mle_upto(inputs, r, k),
    decreases k,
{
    if k == 0 {
        assert(mle_upto(p, r, 0) == 0);
    } else {
        lemma_io_mle(p, inputs, r, (k - 1) as nat);
        assert(p[k as int] == inputs[k - 1]);
    }
}

/// Checks the equality proof that ends the first phase under `c`.
pub fn phase_one_check(
    gen_1: &MultiCommitmentSetupParameters,
    kpc: &KnowledgeProductCommit,
    eq_proof: &EqProof,
    rx: &Vec<Fr>,
    tau: &Vec<Fr>,
    final_x: &GroupElem,
    c: &Fr,
) -> (res: Result<(), SynthesisError>)
    requires
        rx@.len() == tau@.len(),
    ensures
        verdict(res, phase_one_holds(*gen_1, *kpc, *eq_proof, rx@, tau@, final_x@, *c)),
{
    let e = eval_eq_x_y(rx, tau);
    let c1 = kpc.prod_commit.sub(&kpc.vc_commit).mul(&e);
    eq_check(gen_1, &c1, final_x, eq_proof, c)
}

/// `z(ry)` times the combined matrix evaluations, as a commitment;
/// `ParameterMismatch` where `ry` and the inputs do not fit each other.
pub fn phase_two_lhs(
    pc: &PolyCommitmentSetupParameters,
    commit_ry: &GroupElem,
    inputs: &Vec<Fr>,
    evals: &MatrixEvals,
    ry: &Vec<Fr>,
    ra: &Fr,
    rb: &Fr,
    rc: &Fr,
) -> (res: Result<GroupElem, SynthesisError>)
    ensures
        res is Ok <==> phase_two_fits(*pc, inputs@.len(), ry@.len()),
        res is Err ==> res->Err_0 == SynthesisError::ParameterMismatch,
        res is Ok ==> res->Ok_0@ == phase_two_commit(*pc, *commit_ry, inputs@, *evals, ry@, *ra, *rb, *rc),
{
    if ry.len() < 1 || pc.gen_1.generators.len() < 1 {
        return Err(SynthesisError::ParameterMismatch);
    }
    let mut tail: Vec<Fr> = Vec::new();
    let mut i: usize = 1;
    while i < ry.len()
        invariant
            1 <= i <= ry@.len(),
            tail@ == ry@.subrange(1, i as int),
        decreases ry@.len() - i,
    {
        tail.push(ry[i]);
        i = i + 1;
        assert(tail@ =~= ry@.subrange(1, i as int));
    }
    assert(tail@ =~= ry@.drop_first());
    let size = match pow2_checked(tail.len()) {
        Some(s) => s,
        None => {
            return Err(SynthesisError::ParameterMismatch);
        },
    };
    if inputs.len() >= size {
        return Err(SynthesisError::ParameterMismatch);
    }
    let one = Fr::one();
    let zero = Fr::zero();
    let mut public_inputs: Vec<Fr> = Vec::new();
    public_inputs.push(one);
    let mut j: usize = 0;
    while j < inputs.len()
        invariant
            j <= inputs@.len(),
            public_inputs@.len() == j + 1,
            public_inputs@[0]@ == 1,
            forall|k: int| 0 <= k < j ==> public_inputs@[k + 1] == inputs@[k],
        decreases inputs@.len() - j,
    {
        public_inputs.push(inputs[j]);
        j = j + 1;
    }
    let eval_input = evaluate_value(&public_inputs, &tail);
    proof {
        lemma_io_mle(public_inputs@, inputs@, tail@, inputs@.len());
    }
    let commit_input = match commit_one(&pc.gen_1, &eval_input, &zero) {
        Ok(g) => g,
        Err(e) => {
            return Err(e);
        },
    };
    proof {
        lemma_pedersen_single(pc.gen_1.generators@, eval_input, pc.gen_1.h, zero);
    }
    let ry0 = ry[0];
    let commit_eval_z = commit_ry.mul(&one.sub(&ry0)).add(&commit_input.mul(&ry0));
    let eval_combined = evals.a.mul(ra).add(&evals.b.mul(rb)).add(&evals.c.mul(rc));
    Ok(commit_eval_z.mul(&eval_combined))
}

/// Checks the equality proof that ends the second phase under `c`.
pub fn phase_two_check(
    pc: &PolyCommitmentSetupParameters,
    commit_ry: &GroupElem,
    eq_proof: &EqProof,
    inputs: &Vec<Fr>,
    evals: &MatrixEvals,
    ry: &Vec<Fr>,
    ra: &Fr,
    rb: &Fr,
    rc: &Fr,
    final_y: &GroupElem,
    c: &Fr,
) -> (res: Result<(), SynthesisError>)
    ensures
        (res == Err::<(), _>(SynthesisError::ParameterMismatch)) <==> !phase_two_fits(
            *pc,
            inputs@.len(),
            ry@.len(),
        ),
        phase_two_fits(*pc, inputs@.len(), ry@.len()) ==> verdict(
            res,
            phase_two_holds(*pc, *commit_ry, *eq_proof, inputs@, *evals, ry@, *ra, *rb, *rc, final_y@, *c),
        ),
{
    let c1 = phase_two_lhs(pc, commit_ry, inputs, evals, ry, ra, rb, rc)?;
    eq_check(&pc.gen_1, &c1, final_y, eq_proof, c)
}

/// `ra * Az + rb * Bz + rc * Cz` over the commitments.
pub open spec fn combined_claim(kpc: KnowledgeProductCommit, ra: Fr, rb: Fr, rc: Fr) -> nat {
    gop(gop(gexp(kpc.va_commit@, ra@), gexp(kpc.vb_commit@, rb@)), gexp(kpc.vc_commit@, rc@))
}

/// The record once the witness commitments are absorbed.
pub open spec fn r1_h1(h: History, proof: R1CSSatProof) -> History {
    h + point_ops("poly_commitment"@, proof.commit_witness@)
}

/// The constraint point `tau`.
pub open spec fn r1_tau(h: History, proof: R1CSSatProof, nx: nat) -> Seq<Fr> {
    Seq::new(
        nx,
        |i: int| fr_of(challenge_scalar_of(r1_h1(h, proof) + squeezes("challenge_tau"@, i as nat), "challenge_tau"@)),
    )
}

/// The record at the start of the first sumcheck.
pub open spec fn r1_h2(h: History, proof: R1CSSatProof, nx: nat) -> History {
    r1_h1(h, proof) + squeezes("challenge_tau"@, nx)
}

/// The commitment to zero the first sumcheck starts from.
pub open spec fn r1_zero(params: R1CSSatisfiedSetupParameters) -> GroupElem {
    ge_of(commit_value(params.sc_params.gen_1.generators@, params.sc_params.gen_1.h, 0, 0))
}

/// The point `rx` of the first sumcheck.
pub open spec fn r1_rx(h: History, params: R1CSSatisfiedSetupParameters, proof: R1CSSatProof, nx: nat) -> Seq<Fr> {
    sc_point_fr(r1_h2(h, proof, nx), proof.proof_one, r1_zero(params), nx)
}

/// The record after the first sumcheck.
pub open spec fn r1_h3(h: History, params: R1CSSatisfiedSetupParameters, proof: R1CSSatProof, nx: nat) -> History {
    sc_history(r1_h2(h, proof, nx), proof.proof_one, r1_zero(params), nx)
}

/// The knowledge proof's challenge.
pub open spec fn r1_kc(h: History, params: R1CSSatisfiedSetupParameters, proof: R1CSSatProof, nx: nat) -> Fr {
    let kpc = proof.knowledge_product_commit;
    fr_of(challenge_scalar_of(
        knowledge_history(r1_h3(h, params, proof, nx), kpc.vc_commit, proof.knowledge_product_proof.knowledge_proof),
        "c"@,
    ))
}

pub open spec fn r1_h4(h: History, params: R1CSSatisfiedSetupParameters, proof: R1CSSatProof, nx: nat) -> History {
    let kpc = proof.knowledge_product_commit;
    knowledge_history(r1_h3(h, params, proof, nx), kpc.vc_commit, proof.knowledge_product_proof.knowledge_proof).push(
        squeeze_op("c"@, CHALLENGE_BYTES as nat),
    )
}

/// The product proof's challenge.
pub open spec fn r1_pc(h: History, params: R1CSSatisfiedSetupParameters, proof: R1CSSatProof, nx: nat) -> Fr {
    let kpc = proof.knowledge_product_commit;
    fr_of(challenge_scalar_of(
        product_history(
            r1_h4(h, params, proof, nx),
            kpc.va_commit,
            kpc.vb_commit,
            kpc.prod_commit,
            proof.knowledge_product_proof.product_proof,
        ),
        "c"@,
    ))
}

/// The record once the `Az`, `Bz`, `Cz` and product claims are absorbed.
pub open spec fn r1_h6(h: History, params: R1CSSatisfiedSetupParameters, proof: R1CSSatProof, nx: nat) -> History {
    let kpc = proof.knowledge_product_commit;
    product_history(
        r1_h4(h, params, proof, nx),
        kpc.va_commit,
        kpc.vb_commit,
        kpc.prod_commit,
        proof.knowledge_product_proof.product_proof,
    ).push(squeeze_op("c"@, CHALLENGE_BYTES as nat)).push(
        absorb_op("comm_Az_claim"@, le_bytes(kpc.va_commit@, 8)),
    ).push(absorb_op("comm_Bz_claim"@, le_bytes(kpc.vb_commit@, 8))).push(
        absorb_op("comm_Cz_claim"@, le_bytes(kpc.vc_commit@, 8)),
    ).push(absorb_op("comm_prod_Az_Bz_claims"@, le_bytes(kpc.prod_commit@, 8)))
}

/// The first phase's claimed commitment `eq(rx, tau) * (prod - Cz)`.
pub open spec fn r1_c1(h: History, params: R1CSSatisfiedSetupParameters, proof: R1CSSatProof, nx: nat) -> nat {
    let kpc = proof.knowledge_product_commit;
    gexp(gsub(kpc.prod_commit@, kpc.vc_commit@), eq_prod(r1_rx(h, params, proof, nx), r1_tau(h, proof, nx)))
}

/// The commitment the first sumcheck ends on.
pub open spec fn r1_final_x(params: R1CSSatisfiedSetupParameters, proof: R1CSSatProof, nx: nat) -> nat {
    round_claim(proof.proof_one, r1_zero(params), nx as int)@
}

/// The first phase's equality challenge.
pub open spec fn r1_e1(h: History, params: R1CSSatisfiedSetupParameters, proof: R1CSSatProof, nx: nat) -> Fr {
    fr_of(challenge_scalar_of(
        eq_history(r1_h6(h, params, proof, nx), r1_c1(h, params, proof, nx), r1_final_x(params, proof, nx), proof.sc1_eq_proof),
        "c"@,
    ))
}

pub open spec fn r1_h7(h: History, params: R1CSSatisfiedSetupParameters, proof: R1CSSatProof, nx: nat) -> History {
    eq_history(r1_h6(h, params, proof, nx), r1_c1(h, params, proof, nx), r1_final_x(params, proof, nx), proof.sc1_eq_proof).push(
        squeeze_op("c"@, CHALLENGE_BYTES as nat),
    )
}

/// The combining scalars `ra`, `rb`, `rc` (`i` = 0, 1, 2).
pub open spec fn r1_rabc(h: History, params: R1CSSatisfiedSetupParameters, proof: R1CSSatProof, nx: nat, i: nat) -> Fr {
    let h7 = r1_h7(h, params, proof, nx);
    if i == 0 {
        fr_of(challenge_scalar_of(h7, "challenege_Az"@))
    } else if i == 1 {
        fr_of(challenge_scalar_of(h7.push(squeeze_op("challenege_Az"@, CHALLENGE_BYTES as nat)), "challenege_Bz"@))
    } else {
        fr_of(challenge_scalar_of(
            h7.push(squeeze_op("challenege_Az"@, CHALLENGE_BYTES as nat)).push(
                squeeze_op("challenege_Bz"@, CHALLENGE_BYTES as nat),
            ),
            "challenege_Cz"@,
        ))
    }
}

/// The record at the start of the second sumcheck.
pub open spec fn r1_h10(h: History, params: R1CSSatisfiedSetupParameters, proof: R1CSSatProof, nx: nat) -> History {
    r1_h7(h, params, proof, nx).push(squeeze_op("challenege_Az"@, CHALLENGE_BYTES as nat)).push(
        squeeze_op("challenege_Bz"@, CHALLENGE_BYTES as nat),
    ).push(squeeze_op("challenege_Cz"@, CHALLENGE_BYTES as nat))
}

/// The claim the second sumcheck starts from.
pub open spec fn r1_claim2(h: History, params: R1CSSatisfiedSetupParameters, proof: R1CSSatProof, nx: nat) -> GroupElem {
    ge_of(combined_claim(
        proof.knowledge_product_commit,
        r1_rabc(h, params, proof, nx, 0),
        r1_rabc(h, params, proof, nx, 1),
        r1_rabc(h, params, proof, nx, 2),
    ))
}

/// The point `ry` of the second sumcheck.
pub open spec fn r1_ry(h: History, params: R1CSSatisfiedSetupParameters, proof: R1CSSatProof, nx: nat, ny: nat) -> Seq<Fr> {
    sc_point_fr(r1_h10(h, params, proof, nx), proof.proof_two, r1_claim2(h, params, proof, nx), ny)
}

/// The record after the second sumcheck.
pub open spec fn r1_h11(h: History, params: R1CSSatisfiedSetupParameters, proof: R1CSSatProof, nx: nat, ny: nat) -> History {
    sc_history(r1_h10(h, params, proof, nx), proof.proof_two, r1_claim2(h, params, proof, nx), ny)
}

/// The record after the witness opening.
pub open spec fn r1_h12(h: History, params: R1CSSatisfiedSetupParameters, proof: R1CSSatProof, nx: nat, ny: nat) -> History {
    ip_pre_c(
        r1_h11(h, params, proof, nx, ny),
        params.pc_params,
        r1_ry(h, params, proof, nx, ny).drop_first(),
        proof.commit_witness@,
        proof.commit_ry,
        proof.product_proof,
    ).push(squeeze_op("challenge_tau"@, CHALLENGE_BYTES as nat))
}

/// The second phase's claimed commitment.
pub open spec fn r1_c2(
    h: History,
    params: R1CSSatisfiedSetupParameters,
    proof: R1CSSatProof,
    inputs: Seq<Fr>,
    evals: MatrixEvals,
    nx: nat,
    ny: nat,
) -> nat {
    phase_two_commit(
        params.pc_params,
        proof.commit_ry,
        inputs,
        evals,
        r1_ry(h, params, proof, nx, ny),
        r1_rabc(h, params, proof, nx, 0),
        r1_rabc(h, params, proof, nx, 1),
        r1_rabc(h, params, proof, nx, 2),
    )
}

/// The commitment the second sumcheck ends on.
pub open spec fn r1_final_y(h: History, params: R1CSSatisfiedSetupParameters, proof: R1CSSatProof, nx: nat, ny: nat) -> nat {
    round_claim(proof.proof_two, r1_claim2(h, params, proof, nx), ny as int)@
}

pub open spec fn r1_pre_e2(
    h: History,
    params: R1CSSatisfiedSetupParameters,
    proof: R1CSSatProof,
    inputs: Seq<Fr>,
    evals: MatrixEvals,
    nx: nat,
    ny: nat,
) -> History {
    eq_history(
        r1_h12(h, params, proof, nx, ny),
        r1_c2(h, params, proof, inputs, evals, nx, ny),
        r1_final_y(h, params, proof, nx, ny),
        proof.sc2_eq_proof,
    )
}

/// The record after the whole verification.
pub open spec fn r1_post(
    h: History,
    params: R1CSSatisfiedSetupParameters,
    proof: R1CSSatProof,
    inputs: Seq<Fr>,
    evals: MatrixEvals,
    nx: nat,
    ny: nat,
) -> History {
    r1_pre_e2(h, params, proof, inputs, evals, nx, ny).push(squeeze_op("c"@, CHALLENGE_BYTES as nat))
}

/// Every check of an R1CS satisfiability proof holds at the challenges the
/// transcript yields from record `h`: both sumchecks, the knowledge and
/// product proofs, the two equality proofs (the second binding `inputs`
/// and `evals`), and the witness opening.
pub open spec fn r1cs_ok(
    h: History,
    params: R1CSSatisfiedSetupParameters,
    proof: R1CSSatProof,
    inputs: Seq<Fr>,
    evals: MatrixEvals,
    nx: nat,
    ny: nat,
) -> bool {
    let sc = params.sc_params;
    let kpc = proof.knowledge_product_commit;
    let kp = proof.knowledge_product_proof;
    let ry = r1_ry(h, params, proof, nx, ny);
    &&& sc_accepted(sc.gen_1, sc.gen_4, r1_h2(h, proof, nx), proof.proof_one, r1_zero(params), 4, nx)
    &&& knowledge_holds(sc.gen_1, kp.knowledge_proof, kpc.vc_commit, r1_kc(h, params, proof, nx))
    &&& product_holds(
        sc.gen_1,
        kp.product_proof,
        kpc.va_commit,
        kpc.vb_commit,
        kpc.prod_commit,
        r1_pc(h, params, proof, nx),
    )
    &&& phase_one_holds(
        sc.gen_1,
        kpc,
        proof.sc1_eq_proof,
        r1_rx(h, params, proof, nx),
        r1_tau(h, proof, nx),
        r1_final_x(params, proof, nx),
        r1_e1(h, params, proof, nx),
    )
    &&& sc_accepted(
        sc.gen_1,
        sc.gen_3,
        r1_h10(h, params, proof, nx),
        proof.proof_two,
        r1_claim2(h, params, proof, nx),
        3,
        ny,
    )
    &&& opening_holds(
        params.pc_params,
        ry.drop_first(),
        proof.commit_witness@,
        proof.commit_ry,
        proof.product_proof,
        ip_us(r1_h11(h, params, proof, nx, ny), params.pc_params, ry.drop_first(), proof.commit_witness@, proof.commit_ry, proof.product_proof),
        ip_c(r1_h11(h, params, proof, nx, ny), params.pc_params, ry.drop_first(), proof.commit_witness@, proof.commit_ry, proof.product_proof),
    )
    &&& phase_two_holds(
        params.pc_params,
        proof.commit_ry,
        proof.sc2_eq_proof,
        inputs,
        evals,
        ry,
        r1_rabc(h, params, proof, nx, 0),
        r1_rabc(h, params, proof, nx, 1),
        r1_rabc(h, params, proof, nx, 2),
        r1_final_y(h, params, proof, nx, ny),
        fr_of(challenge_scalar_of(r1_pre_e2(h, params, proof, inputs, evals, nx, ny), "c"@)),
    )
}

/// The number of sumcheck rounds over constraints and over variables.
pub open spec fn rounds_ok(r1cs: R1CSInstance, nx: nat, ny: nat) -> bool {
    let w = if r1cs.num_aux >= r1cs.num_inputs { r1cs.num_aux } else { r1cs.num_inputs };
    is_ceil_log2(r1cs.num_constraints as nat, nx) && ny >= 1 && is_ceil_log2(w as nat, (ny - 1) as nat)
}

/// Verifies that the witness committed in `proof` satisfies the R1CS
/// instance with public `inputs`, given the claimed evaluations of the
/// matrices at the point the proof reduces to. Returns that point `(rx, ry)`.
/// Parameters and the proof's shape are checked before any challenge.
#[verifier::rlimit(80)]
pub fn r1cs_satisfied_verify(
    params: &R1CSSatisfiedSetupParameters,
    r1cs: &R1CSInstance,
    inputs: &Vec<Fr>,
    proof: &R1CSSatProof,
    matrix_evals: &MatrixEvals,
    transcript: &mut ProofTranscript,
) -> (res: Result<(Vec<Fr>, Vec<Fr>), SynthesisError>)
    ensures
        res is Err ==> res->Err_0 != SynthesisError::MissingAssignment,
        forall|nx: nat, ny: nat|
            #[trigger] rounds_ok(*r1cs, nx, ny) && two_pow(nx) <= usize::MAX && two_pow(
                (ny - 1) as nat,
            ) <= usize::MAX ==> {
                &&& (res == Err::<(Vec<Fr>, Vec<Fr>), _>(SynthesisError::ParameterMismatch)
                    <==> !r1cs_params_ok(*params, inputs@.len(), ny))
                &&& r1cs_params_ok(*params, inputs@.len(), ny) && !r1cs_shape_ok(*proof, nx, ny)
                    ==> res == Err::<(Vec<Fr>, Vec<Fr>), _>(SynthesisError::MalformedProof)
                &&& res == Err::<(Vec<Fr>, Vec<Fr>), _>(SynthesisError::MalformedProof)
                    ==> !r1cs_shape_ok(*proof, nx, ny)
                &&& r1cs_params_ok(*params, inputs@.len(), ny) && r1cs_shape_ok(*proof, nx, ny) ==> {
                    &&& (res is Ok <==> r1cs_ok(
                        old(transcript).history(),
                        *params,
                        *proof,
                        inputs@,
                        *matrix_evals,
                        nx,
                        ny,
                    ))
                    &&& res is Err ==> res->Err_0 == SynthesisError::CryptographicCheckFailed
                    &&& res is Ok ==> res->Ok_0.0@ == r1_rx(old(transcript).history(), *params, *proof, nx)
                        && res->Ok_0.1@ == r1_ry(old(transcript).history(), *params, *proof, nx, ny)
                        && final(transcript).history() == r1_post(
                        old(transcript).history(),
                        *params,
                        *proof,
                        inputs@,
                        *matrix_evals,
                        nx,
                        ny,
                    )
                }
            },
        res is Ok ==> {
            let nx = res->Ok_0.0@.len();
            let ny = res->Ok_0.1@.len();
            &&& rounds_ok(*r1cs, nx, ny)
            &&& two_pow(nx) <= usize::MAX
            &&& two_pow((ny - 1) as nat) <= usize::MAX
            &&& r1cs_params_ok(*params, inputs@.len(), ny)
            &&& r1cs_shape_ok(*proof, nx, ny)
        },
{
    let sc = &params.sc_params;
    let pc = &params.pc_params;
    let kpc = &proof.knowledge_product_commit;
    let kp = &proof.knowledge_product_proof;
    let w = if r1cs.num_aux >= r1cs.num_inputs { r1cs.num_aux } else { r1cs.num_inputs };
    let num_rounds_x = match ceil_log2(r1cs.num_constraints) {
        Some(k) => k,
        None => {
            return Err(SynthesisError::ParameterMismatch);
        },
    };
    let tail_len = match ceil_log2(w) {
        Some(k) => k,
        None => {
            return Err(SynthesisError::ParameterMismatch);
        },
    };
    let num_rounds_y = tail_len + 1;
    proof {
        lemma_ceil_log2_unique(r1cs.num_constraints as nat, num_rounds_x as nat);
        lemma_ceil_log2_unique(w as nat, tail_len as nat);
        assert(rounds_ok(*r1cs, num_rounds_x as nat, num_rounds_y as nat));
        assert forall|nx: nat, ny: nat| #[trigger] rounds_ok(*r1cs, nx, ny) implies nx
            == num_rounds_x && ny == num_rounds_y by {
            assert(is_ceil_log2(w as nat, (ny - 1) as nat));
        }
    }
    // parameters
    let size = match pow2_checked(tail_len) {
        Some(s) => s,
        None => {
            return Err(SynthesisError::ParameterMismatch);
        },
    };
    proof {
        crate::poly::lemma_two_pow_monotone((tail_len - tail_len / 2) as nat, tail_len as nat);
    }
    let right_size = match pow2_checked(tail_len - tail_len / 2) {
        Some(s) => s,
        None => {
            return Err(SynthesisError::ParameterMismatch);
        },
    };
    if sc.gen_1.generators.len() < 1 || sc.gen_3.generators.len() < 3 || sc.gen_4.generators.len()
        < 4 || pc.gen_1.generators.len() < 1 || pc.gen_n.generators.len() < right_size
        || inputs.len() >= size {
        return Err(SynthesisError::ParameterMismatch);
    }
    // shape
    if !sumcheck_shape_check(&proof.proof_one, 4, num_rounds_x) || !sumcheck_shape_check(
        &proof.proof_two,
        3,
        num_rounds_y,
    ) || kp.product_proof.z.len() != 5 || !dot_shape_check(
        tail_len,
        proof.commit_witness.len(),
        &proof.product_proof,
    ) {
        return Err(SynthesisError::MalformedProof);
    }
    let ghost h0 = transcript.history();
    let ghost nx = num_rounds_x as nat;
    let ghost ny = num_rounds_y as nat;
    append_points(transcript, "poly_commitment", &proof.commit_witness);
    let tau = challenge_scalars(transcript, "challenge_tau", num_rounds_x);
    proof {
        assert(tau@ =~= r1_tau(h0, *proof, nx));
        assert(transcript.history() == r1_h2(h0, *proof, nx));
    }
    // sumcheck #1
    let zero = Fr::zero();
    let commit_claim = match commit_one(&sc.gen_1, &zero, &zero) {
        Ok(g) => g,
        Err(_) => {
            return Err(SynthesisError::CryptographicCheckFailed);
        },
    };
    commit_claim.check_canonical();
    proof {
        lemma_pedersen_single(sc.gen_1.generators@, zero, sc.gen_1.h, zero);
        assert(commit_claim == r1_zero(*params));
    }
    let (rx, commit_eval_x) = match sum_check_verify(
        &sc.gen_1,
        &sc.gen_4,
        &proof.proof_one,
        &commit_claim,
        4,
        num_rounds_x,
        transcript,
    ) {
        Ok(t) => t,
        Err(_) => {
            return Err(SynthesisError::CryptographicCheckFailed);
        },
    };
    proof {
        assert(rx@ == r1_rx(h0, *params, *proof, nx));
        assert(transcript.history() == r1_h3(h0, *params, *proof, nx));
    }
    let kres = knowledge_verify(&sc.gen_1, &kp.knowledge_proof, &kpc.vc_commit, transcript);
    if kres.is_err() {
        return Err(SynthesisError::CryptographicCheckFailed);
    }
    assert(transcript.history() == r1_h4(h0, *params, *proof, nx));
    let pres = product_verify(
        &sc.gen_1,
        &kp.product_proof,
        &kpc.va_commit,
        &kpc.vb_commit,
        &kpc.prod_commit,
        transcript,
    );
    if pres.is_err() {
        return Err(SynthesisError::CryptographicCheckFailed);
    }
    append_point(transcript, "comm_Az_claim", &kpc.va_commit);
    append_point(transcript, "comm_Bz_claim", &kpc.vb_commit);
    append_point(transcript, "comm_Cz_claim", &kpc.vc_commit);
    append_point(transcript, "comm_prod_Az_Bz_claims", &kpc.prod_commit);
    assert(transcript.history() == r1_h6(h0, *params, *proof, nx));
    let eval_rx_tau = eval_eq_x_y(&rx, &tau);
    let claim_commit_phase_one = kpc.prod_commit.sub(&kpc.vc_commit).mul(&eval_rx_tau);
    append_point(transcript, "C1", &claim_commit_phase_one);
    append_point(transcript, "C2", &commit_eval_x);
    append_point(transcript, "alpha", &proof.sc1_eq_proof.alpha);
    proof {
        assert(claim_commit_phase_one@ == r1_c1(h0, *params, *proof, nx));
        assert(commit_eval_x@ == r1_final_x(*params, *proof, nx));
    }
    let c1 = challenge_scalar(transcript, "c");
    if phase_one_check(&sc.gen_1, kpc, &proof.sc1_eq_proof, &rx, &tau, &commit_eval_x, &c1).is_err() {
        return Err(SynthesisError::CryptographicCheckFailed);
    }
    assert(transcript.history() == r1_h7(h0, *params, *proof, nx));
    // sumcheck #2
    let r_a = challenge_scalar(transcript, "challenege_Az");
    let r_b = challenge_scalar(transcript, "challenege_Bz");
    let r_c = challenge_scalar(transcript, "challenege_Cz");
    let claim_commit_two = kpc.va_commit.mul(&r_a).add(&kpc.vb_commit.mul(&r_b)).add(
        &kpc.vc_commit.mul(&r_c),
    );
    claim_commit_two.check_canonical();
    proof {
        assert(r_a == r1_rabc(h0, *params, *proof, nx, 0));
        assert(r_b == r1_rabc(h0, *params, *proof, nx, 1));
        assert(r_c == r1_rabc(h0, *params, *proof, nx, 2));
        assert(claim_commit_two == r1_claim2(h0, *params, *proof, nx));
        assert(transcript.history() == r1_h10(h0, *params, *proof, nx));
    }
    let (ry, commit_eval_y) = match sum_check_verify(
        &sc.gen_1,
        &sc.gen_3,
        &proof.proof_two,
        &claim_commit_two,
        3,
        num_rounds_y,
        transcript,
    ) {
        Ok(t) => t,
        Err(_) => {
            return Err(SynthesisError::CryptographicCheckFailed);
        },
    };
    proof {
        assert(ry@ == r1_ry(h0, *params, *proof, nx, ny));
        assert(transcript.history() == r1_h11(h0, *params, *proof, nx, ny));
    }
    let mut ry_tail: Vec<Fr> = Vec::new();
    let mut i: usize = 1;
    while i < ry.len()
        invariant
            1 <= i <= ry@.len(),
            ry_tail@ == ry@.subrange(1, i as int),
        decreases ry@.len() - i,
    {
        ry_tail.push(ry[i]);
        i = i + 1;
        assert(ry_tail@ =~= ry@.subrange(1, i as int));
    }
    assert(ry_tail@ =~= ry@.drop_first());
    let ores = inner_product_verify(pc, &ry_tail, &proof.commit_witness, &proof.commit_ry, &proof.product_proof, transcript);
    if ores.is_err() {
        return Err(SynthesisError::CryptographicCheckFailed);
    }
    assert(transcript.history() == r1_h12(h0, *params, *proof, nx, ny));
    let claim_commit_phase_two = match phase_two_lhs(
        pc,
        &proof.commit_ry,
        inputs,
        matrix_evals,
        &ry,
        &r_a,
        &r_b,
        &r_c,
    ) {
        Ok(g) => g,
        Err(_) => {
            return Err(SynthesisError::CryptographicCheckFailed);
        },
    };
    append_point(transcript, "C1", &claim_commit_phase_two);
    append_point(transcript, "C2", &commit_eval_y);
    append_point(transcript, "alpha", &proof.sc2_eq_proof.alpha);
    proof {
        assert(commit_eval_y@ == r1_final_y(h0, *params, *proof, nx, ny));
        assert(transcript.history() == r1_pre_e2(h0, *params, *proof, inputs@, *matrix_evals, nx, ny));
    }
    let c2 = challenge_scalar(transcript, "c");
    let p2 = phase_two_check(
        pc,
        &proof.commit_ry,
        &proof.sc2_eq_proof,
        inputs,
        matrix_evals,
        &ry,
        &r_a,
        &r_b,
        &r_c,
        &commit_eval_y,
        &c2,
    );
    if p2.is_err() {
        return Err(SynthesisError::CryptographicCheckFailed);
    }
    proof {
        assert(r1cs_ok(h0, *params, *proof, inputs@, *matrix_evals, nx, ny));
    }
    Ok((rx, ry))
}

proof fn lemma_ceil_log2_unique(n: nat, k: nat)
    requires
        is_ceil_log2(n, k),
    ensures
        forall|j: nat| #[trigger] is_ceil_log2(n, j) ==> j == k,
{
    assert forall|j: nat| #[trigger] is_ceil_log2(n, j) implies j == k by {
        if j < k {
            crate::poly::lemma_two_pow_monotone(j, (k - 1) as nat);
        } else if j > k {
            crate::poly::lemma_two_pow_monotone(k, (j - 1) as nat);
        }
    }
}

/// Whether two vectors denote the same field elements.
pub fn frs_equal(a: &Vec<Fr>, b: &Vec<Fr>) -> (r: bool)
    ensures
        r <==> crate::inner_product::fr_views(a@) == crate::inner_product::fr_views(b@),
{
    if a.len() != b.len() {
        assert(crate::inner_product::fr_views(a@).len() == a@.len());
        assert(crate::inner_product::fr_views(b@).len() == b@.len());
        return false;
    }
    let mut i: usize = 0;
    while i < a.len()
        invariant
            i <= a@.len(),
            a@.len() == b@.len(),
            forall|k: int| 0 <= k < i ==> (#[trigger] a@[k])@ == b@[k]@,
        decreases a@.len() - i,
    {
        if !a[i].equals(&b[i]) {
            assert(crate::inner_product::fr_views(a@)[i as int] != crate::inner_product::fr_views(b@)[i as int]);
            return false;
        }
        i = i + 1;
    }
    assert(crate::inner_product::fr_views(a@) =~= crate::inner_product::fr_views(b@));
    true
}

/// The matrix evaluations at the proof's point.
pub open spec fn nizk_evals(r1cs: R1CSInstance, proof: NIZKProof) -> MatrixEvals {
    MatrixEvals {
        a: fr_of(sparse_mle_upto(r1cs.a_matrix@, proof.rx@, proof.ry@, r1cs.a_matrix@.len())),
        b: fr_of(sparse_mle_upto(r1cs.b_matrix@, proof.rx@, proof.ry@, r1cs.b_matrix@.len())),
        c: fr_of(sparse_mle_upto(r1cs.c_matrix@, proof.rx@, proof.ry@, r1cs.c_matrix@.len())),
    }
}

/// Acceptance of a NIZK proof: from a fresh transcript for the protocol,
/// every check of the R1CS proof holds with the matrices evaluated at the
/// proof's point, and the point the proof reduces to is that point.
pub open spec fn nizk_accepted(
    params: R1CSSatisfiedSetupParameters,
    r1cs: R1CSInstance,
    inputs: Seq<Fr>,
    proof: NIZKProof,
    nx: nat,
    ny: nat,
) -> bool {
    let h0 = seq![start_op("Spartan NIZK proof"@)];
    let sat = proof.r1cs_satisfied_proof;
    &&& r1cs_ok(h0, params, sat, inputs, nizk_evals(r1cs, proof), nx, ny)
    &&& fr_views(r1_rx(h0, params, sat, nx)) == fr_views(proof.rx@)
    &&& fr_views(r1_ry(h0, params, sat, nx, ny)) == fr_views(proof.ry@)
}

/// Verifies a NIZK proof of satisfiability of `r1cs` with public `inputs`,
/// evaluating the matrices directly at the point the proof names. Returns
/// `Ok(false)` where a cryptographic check fails or the proof reduces to
/// another point.
pub fn nizk_verify(
    params: &R1CSSatisfiedSetupParameters,
    r1cs: &R1CSInstance,
    inputs: &Vec<Fr>,
    proof: &NIZKProof,
) -> (res: Result<bool, SynthesisError>)
    ensures
        res is Err ==> res->Err_0 != SynthesisError::CryptographicCheckFailed && res->Err_0
            != SynthesisError::MissingAssignment,
        res == Ok::<bool, SynthesisError>(true) ==> {
            &&& rounds_ok(*r1cs, proof.rx@.len(), proof.ry@.len())
            &&& entries_in_range(r1cs.a_matrix@, proof.rx@.len(), proof.ry@.len())
            &&& entries_in_range(r1cs.b_matrix@, proof.rx@.len(), proof.ry@.len())
            &&& entries_in_range(r1cs.c_matrix@, proof.rx@.len(), proof.ry@.len())
        },
        forall|nx: nat, ny: nat|
            #[trigger] rounds_ok(*r1cs, nx, ny) && two_pow(nx) <= usize::MAX && two_pow(
                (ny - 1) as nat,
            ) <= usize::MAX && two_pow(proof.rx@.len()) <= usize::MAX && two_pow(proof.ry@.len())
                <= usize::MAX && entries_in_range(r1cs.a_matrix@, proof.rx@.len(), proof.ry@.len())
                && entries_in_range(r1cs.b_matrix@, proof.rx@.len(), proof.ry@.len())
                && entries_in_range(r1cs.c_matrix@, proof.rx@.len(), proof.ry@.len()) && r1cs_params_ok(
                *params,
                inputs@.len(),
                ny,
            ) && r1cs_shape_ok(proof.r1cs_satisfied_proof, nx, ny) ==> (res == Ok::<
                bool,
                SynthesisError,
            >(true) <==> nizk_accepted(*params, *r1cs, inputs@, *proof, nx, ny)) && res is Ok,
        two_pow(proof.rx@.len()) <= usize::MAX && two_pow(proof.ry@.len()) <= usize::MAX && !(
        entries_in_range(r1cs.a_matrix@, proof.rx@.len(), proof.ry@.len()) && entries_in_range(
            r1cs.b_matrix@,
            proof.rx@.len(),
            proof.ry@.len(),
        ) && entries_in_range(r1cs.c_matrix@, proof.rx@.len(), proof.ry@.len()))
            ==> res == Err::<bool, SynthesisError>(SynthesisError::ParameterMismatch),
{
    let mut transcript = ProofTranscript::new("Spartan NIZK proof");
    if pow2_checked(proof.rx.len()).is_none() || pow2_checked(proof.ry.len()).is_none() {
        return Err(SynthesisError::ParameterMismatch);
    }
    let a = evaluate_mle(&r1cs.a_matrix, &proof.rx, &proof.ry)?;
    let b = evaluate_mle(&r1cs.b_matrix, &proof.rx, &proof.ry)?;
    let c = evaluate_mle(&r1cs.c_matrix, &proof.rx, &proof.ry)?;
    a.check_canonical();
    b.check_canonical();
    c.check_canonical();
    let evals = MatrixEvals { a, b, c };
    assert(evals == nizk_evals(*r1cs, *proof));
    match r1cs_satisfied_verify(
        params,
        r1cs,
        inputs,
        &proof.r1cs_satisfied_proof,
        &evals,
        &mut transcript,
    ) {
        Ok((rx, ry)) => {
            if frs_equal(&rx, &proof.rx) && frs_equal(&ry, &proof.ry) {
                assert(crate::inner_product::fr_views(rx@).len() == rx@.len());
                assert(crate::inner_product::fr_views(proof.rx@).len() == proof.rx@.len());
                assert(crate::inner_product::fr_views(ry@).len() == ry@.len());
                assert(crate::inner_product::fr_views(proof.ry@).len() == proof.ry@.len());
                Ok(true)
            } else {
                Ok(false)
            }
        },
        Err(SynthesisError::CryptographicCheckFailed) => Ok(false),
        Err(e) => Err(e),
    }
}

/// Acceptance of a SNARK proof at the point `(rx, ry)`: the R1CS proof is
/// accepted there with the claimed matrix evaluations, and the sparse
/// evaluation proof shows those evaluations against `encode_commit` at the
/// same point.
pub open spec fn snark_accepted(
    params: SetupParametersWithSpark,
    r1cs: R1CSInstance,
    inputs: Seq<Fr>,
    proof: SNARKProof,
    encode_commit: EncodeCommit,
    rx: Seq<Fr>,
    ry: Seq<Fr>,
) -> bool {
    &&& rounds_ok(r1cs, rx.len(), ry.len())
    &&& r1cs_ok(
        seq![start_op("Spartan SNARK proof"@)],
        params.r1cs_satisfied_params,
        proof.r1cs_satisfied_proof,
        inputs,
        proof.matrix_evals,
        rx.len(),
        ry.len(),
    )
    &&& rx == r1_rx(seq![start_op("Spartan SNARK proof"@)], params.r1cs_satisfied_params, proof.r1cs_satisfied_proof, rx.len())
    &&& ry == r1_ry(
        seq![start_op("Spartan SNARK proof"@)],
        params.r1cs_satisfied_params,
        proof.r1cs_satisfied_proof,
        rx.len(),
        ry.len(),
    )
    &&& exists|out: ProductLayerClaims, cr: MemoryClaims, cc: MemoryClaims, rxe: Seq<Fr>, rye: Seq<Fr>|
        #[trigger] sparse_accepted(
            snark_sparse_start(params, inputs, proof, rx.len(), ry.len()),
            params.r1cs_eval_params,
            proof.r1cs_evals_proof,
            encode_commit,
            rx,
            ry,
            proof.matrix_evals,
            out,
            cr,
            cc,
            rxe,
            rye,
        )
}

/// The record at which a SNARK's sparse evaluation proof starts.
pub open spec fn snark_sparse_start(
    params: SetupParametersWithSpark,
    inputs: Seq<Fr>,
    proof: SNARKProof,
    nx: nat,
    ny: nat,
) -> History {
    let ev = proof.matrix_evals;
    r1_post(
        seq![start_op("Spartan SNARK proof"@)],
        params.r1cs_satisfied_params,
        proof.r1cs_satisfied_proof,
        inputs,
        ev,
        nx,
        ny,
    ).push(absorb_op("Ar_claim"@, le_bytes(ev.a@, 8))).push(absorb_op("Br_claim"@, le_bytes(ev.b@, 8))).push(
        absorb_op("Cr_claim"@, le_bytes(ev.c@, 8)),
    )
}

/// Verifies a SNARK proof of satisfiability of `r1cs` with public
/// `inputs`, where the matrix evaluations are proved against the committed
/// sparse encoding `encode_commit`.
#[verifier::spinoff_prover]
#[verifier::rlimit(100)]
pub fn snark_verify(
    params: &SetupParametersWithSpark,
    r1cs: &R1CSInstance,
    inputs: &Vec<Fr>,
    proof: &SNARKProof,
    encode_commit: &EncodeCommit,
) -> (res: Result<(), SynthesisError>)
    ensures
        res is Err ==> res->Err_0 != SynthesisError::MissingAssignment,
        res is Ok ==> exists|rx: Seq<Fr>, ry: Seq<Fr>|
            #[trigger] snark_accepted(*params, *r1cs, inputs@, *proof, *encode_commit, rx, ry),
        forall|nx: nat, ny: nat|
            #[trigger] rounds_ok(*r1cs, nx, ny) && two_pow(nx) <= usize::MAX && two_pow(
                (ny - 1) as nat,
            ) <= usize::MAX && r1cs_params_ok(params.r1cs_satisfied_params, inputs@.len(), ny)
                && r1cs_shape_ok(proof.r1cs_satisfied_proof, nx, ny) && !r1cs_ok(
                seq![start_op("Spartan SNARK proof"@)],
                params.r1cs_satisfied_params,
                proof.r1cs_satisfied_proof,
                inputs@,
                proof.matrix_evals,
                nx,
                ny,
            ) ==> res == Err::<(), SynthesisError>(SynthesisError::CryptographicCheckFailed),
{
    let mut transcript = ProofTranscript::new("Spartan SNARK proof");
    let (rx, ry) = r1cs_satisfied_verify(
        &params.r1cs_satisfied_params,
        r1cs,
        inputs,
        &proof.r1cs_satisfied_proof,
        &proof.matrix_evals,
        &mut transcript,
    )?;
    let ghost nx = rx@.len();
    let ghost ny = ry@.len();
    assert(rounds_ok(*r1cs, nx, ny));
    append_scalar(&mut transcript, "Ar_claim", &proof.matrix_evals.a);
    append_scalar(&mut transcript, "Br_claim", &proof.matrix_evals.b);
    append_scalar(&mut transcript, "Cr_claim", &proof.matrix_evals.c);
    assert(transcript.history() == snark_sparse_start(*params, inputs@, *proof, nx, ny));
    sparse_poly_eval_verify(
        &params.r1cs_eval_params,
        &proof.r1cs_evals_proof,
        encode_commit,
        &rx,
        &ry,
        &proof.matrix_evals,
        &mut transcript,
    )?;
    assert(snark_accepted(*params, *r1cs, inputs@, *proof, *encode_commit, rx@, ry@));
    Ok(())
}

} // verus!
