use crate::commitments::{msm_upto, poly_commit_vec, PolyCommitmentSetupParameters};
use crate::errors::SynthesisError;
use crate::codec::le_bytes;
use crate::field::{fadd, finv, fmul, fr_of, Fr};
use crate::group::{gexp, gop, GroupElem};
use crate::poly::{chi, eval_eq, pow2_checked, two_pow};
use crate::proofs::{DotProductProof, InnerProductProof};
use crate::sigma::verdict;
use crate::transcript::{
    absorb_op, append_point, append_text, challenge_scalar, challenge_scalar_of, squeeze_op, text_hist,
    History, ProofTranscript, CHALLENGE_BYTES,
};
use vstd::string::StringSliceAdditionalSpecFns;
use vstd::prelude::*;

verus! {

pub open spec fn fr_views(a: Seq<Fr>) -> Seq<nat> {
    a.map_values(|x: Fr| x@)
}

pub open spec fn point_views(a: Seq<GroupElem>) -> Seq<nat> {
    a.map_values(|x: GroupElem| x@)
}

/// One halving of the public vector: `a'_i = a_i / u + a_{h+i} * u`.
pub open spec fn fold_scalars(a: Seq<nat>, u: nat) -> Seq<nat> {
    let h = a.len() / 2;
    Seq::new(h, |i: int| fadd(fmul(a[i], finv(u)), fmul(a[h + i], u)))
}

/// One halving of the generators: `g'_i = g_i / u + g_{h+i} * u`.
pub open spec fn fold_points(g: Seq<nat>, u: nat) -> Seq<nat> {
    let h = g.len() / 2;
    Seq::new(h, |i: int| gop(gexp(g[i], finv(u)), gexp(g[h + i], u)))
}

/// One folding of the commitment: `u^2 * L + gamma + u^-2 * R`.
pub open spec fn fold_gamma(gamma: nat, l: nat, r: nat, u: nat) -> nat {
    gop(gop(gexp(l, fmul(u, u)), gamma), gexp(r, fmul(finv(u), finv(u))))
}

/// The vector, generators and commitment after the first `k` rounds of
/// halving under the challenges `us`.
pub open spec fn bullet_run(
    a: Seq<nat>,
    g: Seq<nat>,
    gamma: nat,
    ls: Seq<GroupElem>,
    rs: Seq<GroupElem>,
    us: Seq<Fr>,
    k: nat,
) -> (Seq<nat>, Seq<nat>, nat)
    decreases k,
{
    if k == 0 {
        (a, g, gamma)
    } else {
        let prev = bullet_run(a, g, gamma, ls, rs, us, (k - 1) as nat);
        let u = us[k - 1]@;
        (
            fold_scalars(prev.0, u),
            fold_points(prev.1, u),
            fold_gamma(prev.2, ls[k - 1]@, rs[k - 1]@, u),
        )
    }
}

/// The record after the first `k` halving rounds from record `h`.
pub open spec fn bullet_hist(h: History, proof: InnerProductProof, k: nat) -> History
    decreases k,
{
    if k == 0 {
        h
    } else {
        let j = (k - 1) as int;
        bullet_hist(h, proof, (k - 1) as nat).push(absorb_op("L"@, le_bytes(proof.l_vec@[j]@, 8))).push(
            absorb_op("R"@, le_bytes(proof.r_vec@[j]@, 8)),
        ).push(squeeze_op("u"@, CHALLENGE_BYTES as nat))
    }
}

/// The challenge of halving round `k`.
pub open spec fn bullet_u(h: History, proof: InnerProductProof, k: nat) -> nat {
    challenge_scalar_of(
        bullet_hist(h, proof, k).push(absorb_op("L"@, le_bytes(proof.l_vec@[k as int]@, 8))).push(
            absorb_op("R"@, le_bytes(proof.r_vec@[k as int]@, 8)),
        ),
        "u"@,
    )
}

/// The challenges of all halving rounds.
pub open spec fn bullet_us(h: History, proof: InnerProductProof) -> Seq<Fr> {
    Seq::new(proof.l_vec@.len(), |k: int| fr_of(bullet_u(h, proof, k as nat)))
}

/// Whether the halving proof has `L` and `R` for each round of a vector of
/// length `n`.
pub open spec fn bullet_shape_ok(proof: InnerProductProof, n: nat) -> bool {
    proof.l_vec@.len() == proof.r_vec@.len() && n == two_pow(proof.l_vec@.len())
}

fn fold_scalar_vec(a: &Vec<Fr>, u: &Fr, u_inv: &Fr) -> (r: Vec<Fr>)
    requires
        u_inv@ == finv(u@),
    ensures
        fr_views(r@) == fold_scalars(fr_views(a@), u@),
{
    let h = a.len() / 2;
    let mut r: Vec<Fr> = Vec::new();
    let mut i: usize = 0;
    while i < h
        invariant
            h == a@.len() / 2,
            a@.len() <= usize::MAX,
            i <= h,
            r@.len() == i,
            u_inv@ == finv(u@),
            forall|j: int|
                0 <= j < i ==> (#[trigger] r@[j])@ == fold_scalars(fr_views(a@), u@)[j],
        decreases h - i,
    {
        r.push(a[i].mul(u_inv).add(&a[h + i].mul(u)));
        i = i + 1;
    }
    assert(fr_views(r@) =~= fold_scalars(fr_views(a@), u@));
    r
}

fn fold_point_vec(g: &Vec<GroupElem>, u: &Fr, u_inv: &Fr) -> (r: Vec<GroupElem>)
    requires
        u_inv@ == finv(u@),
    ensures
        point_views(r@) == fold_points(point_views(g@), u@),
{
    let h = g.len() / 2;
    let mut r: Vec<GroupElem> = Vec::new();
    let mut i: usize = 0;
    while i < h
        invariant
            h == g@.len() / 2,
            g@.len() <= usize::MAX,
            i <= h,
            r@.len() == i,
            u_inv@ == finv(u@),
            forall|j: int|
                0 <= j < i ==> (#[trigger] r@[j])@ == fold_points(point_views(g@), u@)[j],
        decreases h - i,
    {
        r.push(g[i].mul(u_inv).add(&g[h + i].mul(u)));
        i = i + 1;
    }
    assert(point_views(r@) =~= fold_points(point_views(g@), u@));
    r
}

/// Verifies the recursive halving of an inner-product opening of `gamma`
/// against the public vector `a`, drawing one challenge per round. Returns
/// the folded scalar, the folded generator and the folded commitment.
pub fn bullet_inner_product_verify(
    gens: &Vec<GroupElem>,
    proof: &InnerProductProof,
    gamma: &GroupElem,
    a: &Vec<Fr>,
    transcript: &mut ProofTranscript,
) -> (res: Result<(Fr, GroupElem, GroupElem), SynthesisError>)
    ensures
        (res is Err && res->Err_0 == SynthesisError::MalformedProof) <==> !bullet_shape_ok(
            *proof,
            a@.len(),
        ),
        (res is Err && res->Err_0 == SynthesisError::ParameterMismatch) <==> (bullet_shape_ok(
            *proof,
            a@.len(),
        ) && gens@.len() < a@.len()),
        bullet_shape_ok(*proof, a@.len()) && gens@.len() >= a@.len() ==> res is Ok,
        res is Ok ==> bullet_run(
            fr_views(a@),
            point_views(gens@.subrange(0, a@.len() as int)),
            gamma@,
            proof.l_vec@,
            proof.r_vec@,
            bullet_us(old(transcript).history(), *proof),
            proof.l_vec@.len(),
        ) == (seq![res->Ok_0.0@], seq![res->Ok_0.1@], res->Ok_0.2@),
        res is Ok ==> final(transcript).history() == bullet_hist(
            old(transcript).history(),
            *proof,
            proof.l_vec@.len(),
        ),
{
    let lg = proof.l_vec.len();
    if proof.r_vec.len() != lg {
        return Err(SynthesisError::MalformedProof);
    }
    match pow2_checked(lg) {
        None => {
            let alen = a.len();
            assert(alen == a@.len());
            return Err(SynthesisError::MalformedProof);
        },
        Some(n) => {
            if a.len() != n {
                return Err(SynthesisError::MalformedProof);
            }
        },
    }
    if gens.len() < a.len() {
        return Err(SynthesisError::ParameterMismatch);
    }
    let mut cur_a = a.clone();
    let mut cur_g: Vec<GroupElem> = Vec::new();
    let mut i: usize = 0;
    while i < a.len()
        invariant
            i <= a@.len(),
            a@.len() <= gens@.len(),
            cur_g@ == gens@.subrange(0, i as int),
        decreases a@.len() - i,
    {
        cur_g.push(gens[i]);
        i = i + 1;
        assert(cur_g@ =~= gens@.subrange(0, i as int));
    }
    let mut cur_gamma = *gamma;
    let ghost a0 = fr_views(a@);
    let ghost g0 = point_views(gens@.subrange(0, a@.len() as int));
    let ghost mut us: Seq<Fr> = Seq::empty();
    let ghost h0 = transcript.history();
    proof {
        assert(cur_a@ == a@);
    }
    let mut k: usize = 0;
    while k < lg
        invariant
            k <= lg,
            lg == proof.l_vec@.len(),
            lg == proof.r_vec@.len(),
            us.len() == k,
            h0 == old(transcript).history(),
            transcript.history() == bullet_hist(h0, *proof, k as nat),
            us == Seq::new(k as nat, |j: int| fr_of(bullet_u(h0, *proof, j as nat))),
            cur_a@.len() == two_pow((lg - k) as nat),
            cur_g@.len() == two_pow((lg - k) as nat),
            bullet_run(a0, g0, gamma@, proof.l_vec@, proof.r_vec@, us, k as nat) == (
                fr_views(cur_a@),
                point_views(cur_g@),
                cur_gamma@,
            ),
        decreases lg - k,
    {
        let l = proof.l_vec[k];
        let r = proof.r_vec[k];
        append_point(transcript, "L", &l);
        append_point(transcript, "R", &r);
        proof {
            assert(transcript.history() == bullet_hist(h0, *proof, k as nat).push(
                absorb_op("L"@, le_bytes(l@, 8)),
            ).push(absorb_op("R"@, le_bytes(r@, 8))));
        }
        let u = challenge_scalar(transcript, "u");
        let u_inv = u.inverse();
        let u_sq = u.mul(&u);
        let u_inv_sq = u_inv.mul(&u_inv);
        let next_a = fold_scalar_vec(&cur_a, &u, &u_inv);
        let next_g = fold_point_vec(&cur_g, &u, &u_inv);
        let next_gamma = l.mul(&u_sq).add(&cur_gamma).add(&r.mul(&u_inv_sq));
        let ghost old_us = us;
        proof {
            us = us.push(u);
            assert(us =~= Seq::new((k + 1) as nat, |j: int| fr_of(bullet_u(h0, *proof, j as nat))));
            assert(bullet_run(a0, g0, gamma@, proof.l_vec@, proof.r_vec@, us, k as nat)
                == bullet_run(a0, g0, gamma@, proof.l_vec@, proof.r_vec@, old_us, k as nat)) by {
                lemma_bullet_run_prefix(a0, g0, gamma@, proof.l_vec@, proof.r_vec@, old_us, us, k as nat);
            }
            assert(fr_views(next_a@).len() == fr_views(cur_a@).len() / 2);
            assert(point_views(next_g@).len() == point_views(cur_g@).len() / 2);
        }
        cur_a = next_a;
        cur_g = next_g;
        cur_gamma = next_gamma;
        k = k + 1;
    }
    assert(cur_a@.len() == 1);
    assert(fr_views(cur_a@) =~= seq![cur_a@[0]@]);
    assert(point_views(cur_g@) =~= seq![cur_g@[0]@]);
    Ok((cur_a[0], cur_g[0], cur_gamma))
}

/// `bullet_run` reads only the first `k` challenges.
pub proof fn lemma_bullet_run_prefix(
    a: Seq<nat>,
    g: Seq<nat>,
    gamma: nat,
    ls: Seq<GroupElem>,
    rs: Seq<GroupElem>,
    us1: Seq<Fr>,
    us2: Seq<Fr>,
    k: nat,
)
    requires
        k <= us1.len(),
        k <= us2.len(),
        forall|j: int| 0 <= j < k ==> us1[j] == us2[j],
    ensures
        bullet_run(a, g, gamma, ls, rs, us1, k) == bullet_run(a, g, gamma, ls, rs, us2, k),
    decreases k,
{
    if k > 0 {
        lemma_bullet_run_prefix(a, g, gamma, ls, rs, us1, us2, (k - 1) as nat);
    }
}

} // verus!

verus! {

/// `sum_{i<n} chi(r, i) * g_i`, in the additive notation of the group.
pub open spec fn msm_chi(gens: Seq<GroupElem>, r: Seq<Fr>, n: nat) -> nat
    decreases n,
{
    if n == 0 {
        1
    } else {
        gop(msm_chi(gens, r, (n - 1) as nat), gexp(gens[n - 1]@, chi(r, (n - 1) as nat)))
    }
}

proof fn lemma_msm_chi(gens: Seq<GroupElem>, t: Seq<Fr>, r: Seq<Fr>, n: nat)
    requires
        n <= t.len(),
        forall|i: int| 0 <= i < t.len() ==> (#[trigger] t[i])@ == chi(r, i as nat),
    ensures
        msm_upto(gens, t, n) == msm_chi(gens, r, n),
    decreases n,
{
    if n > 0 {
        lemma_msm_chi(gens, t, r, (n - 1) as nat);
    }
}

/// Whether an opening at a point of dimension `ry_len` has the shape it
/// calls for: one witness commitment per row of the left half, and one
/// halving round per variable of the right half.
pub open spec fn dot_shape_ok(ry_len: nat, cw_len: nat, proof: DotProductProof) -> bool {
    let right = ry_len - ry_len / 2;
    &&& cw_len == two_pow(ry_len / 2)
    &&& proof.inner_product_proof.l_vec@.len() == right
    &&& proof.inner_product_proof.r_vec@.len() == right
}

pub open spec fn dot_params_ok(params: PolyCommitmentSetupParameters, ry_len: nat) -> bool {
    params.gen_1.generators@.len() >= 1 && params.gen_n.generators@.len() >= two_pow(
        (ry_len - ry_len / 2) as nat,
    )
}

/// The final equation of the opening of the committed rows `cw` at `ry`,
/// with value committed in `commit_ry`, under the halving challenges `us`
/// and the challenge `c`.
pub open spec fn opening_holds(
    params: PolyCommitmentSetupParameters,
    ry: Seq<Fr>,
    cw: Seq<GroupElem>,
    commit_ry: GroupElem,
    proof: DotProductProof,
    us: Seq<Fr>,
    c: Fr,
) -> bool {
    let half = ry.len() / 2;
    let left = ry.subrange(0, half as int);
    let right = ry.subrange(half as int, ry.len() as int);
    let gamma = gop(gop(msm_chi(cw, left, cw.len()), gexp(params.gen_1.h@, 0)), commit_ry@);
    let n = two_pow(right.len());
    let a0 = Seq::new(n, |i: int| chi(right, i as nat));
    let g0 = point_views(params.gen_n.generators@.subrange(0, n as int));
    let fin = bullet_run(
        a0,
        g0,
        gamma,
        proof.inner_product_proof.l_vec@,
        proof.inner_product_proof.r_vec@,
        us,
        us.len(),
    );
    opening_final_holds(params, proof, fin.0[0], fin.1[0], fin.2, c)
}

/// The final equation of an opening, on the folded scalar `b`, generator
/// `g_hat` and commitment `gamma_hat`, under the challenge `c`:
/// `b * (c * gamma_hat + beta) + delta == z1 * (g_hat + b * g) + z2 * h`.
pub open spec fn opening_final_holds(
    params: PolyCommitmentSetupParameters,
    proof: DotProductProof,
    b: nat,
    g_hat: nat,
    gamma_hat: nat,
    c: Fr,
) -> bool {
    let lhs = gop(gexp(gop(gexp(gamma_hat, c@), proof.beta@), b), proof.delta@);
    let rhs = gop(
        gexp(gop(g_hat, gexp(params.gen_1.generators@[0]@, b)), proof.z1@),
        gexp(params.gen_1.h@, proof.z2@),
    );
    lhs == rhs
}

/// Checks the final equation of an opening under the challenge `c`.
pub fn opening_check(
    params: &PolyCommitmentSetupParameters,
    proof: &DotProductProof,
    b_s: &Fr,
    g_hat: &GroupElem,
    gamma_hat: &GroupElem,
    c: &Fr,
) -> (res: Result<(), SynthesisError>)
    ensures
        (res == Err::<(), _>(SynthesisError::ParameterMismatch)) <==> params.gen_1.generators@.len()
            < 1,
        params.gen_1.generators@.len() >= 1 ==> verdict(
            res,
            opening_final_holds(*params, *proof, b_s@, g_hat@, gamma_hat@, *c),
        ),
{
    if params.gen_1.generators.len() < 1 {
        return Err(SynthesisError::ParameterMismatch);
    }
    let lhs = gamma_hat.mul(c).add(&proof.beta).mul(b_s).add(&proof.delta);
    let rhs = g_hat.add(&params.gen_1.generators[0].mul(b_s)).mul(&proof.z1).add(
        &params.gen_1.h.mul(&proof.z2),
    );
    if lhs.equals(&rhs) {
        Ok(())
    } else {
        Err(SynthesisError::CryptographicCheckFailed)
    }
}

/// The record once an opening's two commitments are absorbed.
pub open spec fn ip_pre_bullet(
    h: History,
    params: PolyCommitmentSetupParameters,
    ry: Seq<Fr>,
    cw: Seq<GroupElem>,
    commit_ry: GroupElem,
) -> History {
    let left = ry.subrange(0, (ry.len() / 2) as int);
    let lz = gop(msm_chi(cw, left, cw.len()), gexp(params.gen_1.h@, 0));
    text_hist(h, "protocol-name"@, "polynomial evaluation proof".spec_bytes()).push(
        absorb_op("Cx"@, le_bytes(lz, 8)),
    ).push(absorb_op("Cy"@, le_bytes(commit_ry@, 8)))
}

/// The halving challenges of an opening.
pub open spec fn ip_us(
    h: History,
    params: PolyCommitmentSetupParameters,
    ry: Seq<Fr>,
    cw: Seq<GroupElem>,
    commit_ry: GroupElem,
    proof: DotProductProof,
) -> Seq<Fr> {
    bullet_us(ip_pre_bullet(h, params, ry, cw, commit_ry), proof.inner_product_proof)
}

/// The record just before an opening's final challenge.
pub open spec fn ip_pre_c(
    h: History,
    params: PolyCommitmentSetupParameters,
    ry: Seq<Fr>,
    cw: Seq<GroupElem>,
    commit_ry: GroupElem,
    proof: DotProductProof,
) -> History {
    let ipp = proof.inner_product_proof;
    bullet_hist(ip_pre_bullet(h, params, ry, cw, commit_ry), ipp, ipp.l_vec@.len()).push(
        absorb_op("delta"@, le_bytes(proof.delta@, 8)),
    ).push(absorb_op("beta"@, le_bytes(proof.beta@, 8)))
}

/// An opening's final challenge.
pub open spec fn ip_c(
    h: History,
    params: PolyCommitmentSetupParameters,
    ry: Seq<Fr>,
    cw: Seq<GroupElem>,
    commit_ry: GroupElem,
    proof: DotProductProof,
) -> Fr {
    fr_of(challenge_scalar_of(ip_pre_c(h, params, ry, cw, commit_ry, proof), "challenge_tau"@))
}

/// Verifies the opening of the multilinear polynomial whose rows are
/// committed in `commits_witness`, at `ry`, to the value committed in
/// `commit_ry`.
pub fn inner_product_verify(
    params: &PolyCommitmentSetupParameters,
    ry: &Vec<Fr>,
    commits_witness: &Vec<GroupElem>,
    commit_ry: &GroupElem,
    proof: &DotProductProof,
    transcript: &mut ProofTranscript,
) -> (res: Result<(), SynthesisError>)
    ensures
        (res == Err::<(), _>(SynthesisError::MalformedProof)) <==> !dot_shape_ok(
            ry@.len(),
            commits_witness@.len(),
            *proof,
        ),
        (res == Err::<(), _>(SynthesisError::ParameterMismatch)) <==> (dot_shape_ok(
            ry@.len(),
            commits_witness@.len(),
            *proof,
        ) && !dot_params_ok(*params, ry@.len())),
        dot_shape_ok(ry@.len(), commits_witness@.len(), *proof) && dot_params_ok(
            *params,
            ry@.len(),
        ) ==> {
            &&& (res is Ok <==> opening_holds(
                *params,
                ry@,
                commits_witness@,
                *commit_ry,
                *proof,
                ip_us(old(transcript).history(), *params, ry@, commits_witness@, *commit_ry, *proof),
                ip_c(old(transcript).history(), *params, ry@, commits_witness@, *commit_ry, *proof),
            ))
            &&& res is Err ==> res->Err_0 == SynthesisError::CryptographicCheckFailed
            &&& final(transcript).history() == ip_pre_c(
                old(transcript).history(),
                *params,
                ry@,
                commits_witness@,
                *commit_ry,
                *proof,
            ).push(squeeze_op("challenge_tau"@, CHALLENGE_BYTES as nat))
        },
{
    let size = ry.len();
    let half = size / 2;
    let ipp = &proof.inner_product_proof;
    if ipp.l_vec.len() != size - half || ipp.r_vec.len() != size - half {
        return Err(SynthesisError::MalformedProof);
    }
    match pow2_checked(half) {
        None => {
            let cl = commits_witness.len();
            assert(cl == commits_witness@.len());
            return Err(SynthesisError::MalformedProof);
        },
        Some(n) => {
            if commits_witness.len() != n {
                return Err(SynthesisError::MalformedProof);
            }
        },
    }
    let n_right = match pow2_checked(size - half) {
        None => {
            let gl = params.gen_n.generators.len();
            assert(gl == params.gen_n.generators@.len());
            return Err(SynthesisError::ParameterMismatch);
        },
        Some(n) => n,
    };
    if params.gen_1.generators.len() < 1 || params.gen_n.generators.len() < n_right {
        return Err(SynthesisError::ParameterMismatch);
    }
    let ghost h0 = transcript.history();
    append_text(transcript, "protocol-name", "polynomial evaluation proof");
    let mut left: Vec<Fr> = Vec::new();
    let mut right: Vec<Fr> = Vec::new();
    let mut i: usize = 0;
    while i < size
        invariant
            size == ry@.len(),
            half == size / 2,
            i <= size,
            i <= half ==> left@ == ry@.subrange(0, i as int),
            i > half ==> left@ == ry@.subrange(0, half as int),
            i <= half ==> right@.len() == 0,
            i > half ==> right@ == ry@.subrange(half as int, i as int),
        decreases size - i,
    {
        if i < half {
            left.push(ry[i]);
        } else {
            right.push(ry[i]);
        }
        i = i + 1;
        assert(i <= half ==> left@ =~= ry@.subrange(0, i as int));
        assert(i > half ==> right@ =~= ry@.subrange(half as int, i as int));
    }
    assert(left@ =~= ry@.subrange(0, half as int));
    assert(right@ =~= ry@.subrange(half as int, size as int));
    let l_eq = eval_eq(&left);
    let r_eq = eval_eq(&right);
    let zero = Fr::zero();
    let commit_lz = match poly_commit_vec(commits_witness, &l_eq, &params.gen_1.h, &zero) {
        Ok(g) => g,
        Err(e) => {
            return Err(e);
        },
    };
    proof {
        lemma_msm_chi(commits_witness@, l_eq@, left@, l_eq@.len());
    }
    append_point(transcript, "Cx", &commit_lz);
    append_point(transcript, "Cy", commit_ry);
    let gamma = commit_lz.add(commit_ry);
    assert(right@.len() == size - half);
    assert(bullet_shape_ok(*ipp, r_eq@.len()));
    assert(params.gen_n.generators@.len() >= r_eq@.len());
    let folded = bullet_inner_product_verify(
        &params.gen_n.generators,
        ipp,
        &gamma,
        &r_eq,
        transcript,
    );
    let (b_s, g_hat, gamma_hat) = match folded {
        Ok(t) => t,
        Err(e) => {
            return Err(e);
        },
    };
    append_point(transcript, "delta", &proof.delta);
    append_point(transcript, "beta", &proof.beta);
    let c = challenge_scalar(transcript, "challenge_tau");
    let res = opening_check(params, proof, &b_s, &g_hat, &gamma_hat, &c);
    proof {
        let a0 = Seq::new(n_right as nat, |j: int| chi(right@, j as nat));
        assert(fr_views(r_eq@) =~= a0);
        assert(verdict(
            res,
            opening_holds(
                *params,
                ry@,
                commits_witness@,
                *commit_ry,
                *proof,
                ip_us(h0, *params, ry@, commits_witness@, *commit_ry, *proof),
                c,
            ),
        ));
    }
    res
}

} // verus!

verus! {

/// Whether an opening at a point of dimension `ry_len` has the shape it
/// calls for.
pub fn dot_shape_check(ry_len: usize, cw_len: usize, proof: &DotProductProof) -> (r: bool)
    ensures
        r == dot_shape_ok(ry_len as nat, cw_len as nat, *proof),
{
    let half = ry_len / 2;
    let ipp = &proof.inner_product_proof;
    if ipp.l_vec.len() != ry_len - half || ipp.r_vec.len() != ry_len - half {
        return false;
    }
    match pow2_checked(half) {
        None => false,
        Some(n) => cw_len == n,
    }
}

} // verus!
