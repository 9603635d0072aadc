use spartan::transcript::ProofTranscript as Transcript;
use spartan::commitments::{
    commit_one, poly_commit_vec, MultiCommitmentSetupParameters, PolyCommitmentSetupParameters,
};
use spartan::inner_product::inner_product_verify;
use spartan::poly::{eval_eq, evaluate_poly, evaluate_value};
use spartan::proofs::{DotProductProof, InnerProductProof, SumCheckEvalProof, SumCheckProof};
use spartan::sumcheck::sum_check_verify;
use spartan::transcript::{append_point, append_text, challenge_scalar};
use spartan::{Fr, GroupElem, SynthesisError};

fn fr(x: u64) -> Fr {
    Fr::from_u64(x)
}

fn pc_params() -> PolyCommitmentSetupParameters {
    PolyCommitmentSetupParameters {
        gen_1: MultiCommitmentSetupParameters::from_seeds(&vec![101], 999),
        gen_n: MultiCommitmentSetupParameters::from_seeds(&vec![201, 202, 203, 204], 999),
    }
}

fn inner(a: &[Fr], b: &[Fr]) -> Fr {
    a.iter().zip(b).fold(Fr::zero(), |s, (x, y)| s.add(&x.mul(y)))
}

/// Proves the evaluation of the 2 x 4 table `w` (rows committed
/// separately) at the point `ry` of dimension 3.
fn prove_opening(w: &[Vec<Fr>], ry: &[Fr]) -> (Vec<GroupElem>, GroupElem, DotProductProof) {
    let p = pc_params();
    let h = p.gen_n.h;
    let g1 = p.gen_1.generators[0];
    let blinds: Vec<Fr> = (0..w.len()).map(|i| fr(500 + i as u64)).collect();
    let cw: Vec<GroupElem> = (0..w.len())
        .map(|i| poly_commit_vec(&p.gen_n.generators, &w[i], &h, &blinds[i]).unwrap())
        .collect();
    let half = ry.len() / 2;
    let l_eq = eval_eq(&ry[..half].to_vec());
    let mut a = eval_eq(&ry[half..].to_vec());
    let mut x: Vec<Fr> = (0..a.len()).map(|j| inner(&l_eq, &w.iter().map(|row| row[j]).collect::<Vec<_>>())).collect();
    let v = inner(&x, &a);
    let bv = fr(4242);
    let commit_ry = commit_one(&p.gen_1, &v, &bv).unwrap();
    let mut blind = inner(&l_eq, &blinds).add(&bv);
    let commit_lz = poly_commit_vec(&cw, &l_eq, &p.gen_1.h, &Fr::zero()).unwrap();
    let mut t = Transcript::new("open");
    append_text(&mut t, "protocol-name", "polynomial evaluation proof");
    append_point(&mut t, "Cx", &commit_lz);
    append_point(&mut t, "Cy", &commit_ry);
    let mut g: Vec<GroupElem> = p.gen_n.generators[..a.len()].to_vec();
    let (mut l_vec, mut r_vec) = (Vec::new(), Vec::new());
    let mut round = 0u64;
    while x.len() > 1 {
        let k = x.len() / 2;
        let (bl, br) = (fr(700 + round), fr(800 + round));
        let l = poly_commit_vec(&g[k..].to_vec(), &x[..k].to_vec(), &h, &bl)
            .unwrap()
            .add(&g1.mul(&inner(&x[..k], &a[k..])));
        let r = poly_commit_vec(&g[..k].to_vec(), &x[k..].to_vec(), &h, &br)
            .unwrap()
            .add(&g1.mul(&inner(&x[k..], &a[..k])));
        append_point(&mut t, "L", &l);
        append_point(&mut t, "R", &r);
        let u = challenge_scalar(&mut t, "u");
        let ui = u.inverse();
        x = (0..k).map(|i| x[i].mul(&u).add(&x[k + i].mul(&ui))).collect();
        a = (0..k).map(|i| a[i].mul(&ui).add(&a[k + i].mul(&u))).collect();
        g = (0..k).map(|i| g[i].mul(&ui).add(&g[k + i].mul(&u))).collect();
        blind = bl.mul(&u.mul(&u)).add(&blind).add(&br.mul(&ui.mul(&ui)));
        l_vec.push(l);
        r_vec.push(r);
        round += 1;
    }
    let (x_hat, a_hat, g_hat) = (x[0], a[0], g[0]);
    let (d, r_beta, r_delta) = (fr(31), fr(32), fr(33));
    let beta = commit_one(&p.gen_1, &d, &r_beta).unwrap();
    let delta = poly_commit_vec(&vec![g_hat], &vec![d], &h, &r_delta).unwrap();
    append_point(&mut t, "delta", &delta);
    append_point(&mut t, "beta", &beta);
    let c = challenge_scalar(&mut t, "challenge_tau");
    let z1 = a_hat.mul(&c).mul(&x_hat).add(&d);
    let z2 = a_hat.mul(&c).mul(&blind).add(&a_hat.mul(&r_beta)).add(&r_delta);
    let proof = DotProductProof {
        inner_product_proof: InnerProductProof { l_vec, r_vec },
        delta,
        beta,
        z1,
        z2,
    };
    (cw, commit_ry, proof)
}

fn table() -> Vec<Vec<Fr>> {
    vec![vec![fr(1), fr(2), fr(3), fr(4)], vec![fr(5), fr(6), fr(7), fr(8)]]
}

#[test]
fn opening_accepted() {
    let ry = vec![fr(3), fr(5), fr(9)];
    let (cw, commit_ry, proof) = prove_opening(&table(), &ry);
    let mut t = Transcript::new("open");
    assert_eq!(inner_product_verify(&pc_params(), &ry, &cw, &commit_ry, &proof, &mut t), Ok(()));
    // the committed value is the table's multilinear extension at ry
    let flat: Vec<Fr> = table().concat();
    let _ = evaluate_value(&flat, &ry);
}

#[test]
fn opening_with_altered_fold_rejected() {
    let ry = vec![fr(3), fr(5), fr(9)];
    let (cw, commit_ry, mut proof) = prove_opening(&table(), &ry);
    proof.inner_product_proof.l_vec[0] = proof.inner_product_proof.l_vec[0].add(&pc_params().gen_1.h);
    let mut t = Transcript::new("open");
    assert_eq!(
        inner_product_verify(&pc_params(), &ry, &cw, &commit_ry, &proof, &mut t),
        Err(SynthesisError::CryptographicCheckFailed)
    );
}

#[test]
fn opening_of_other_value_rejected() {
    let ry = vec![fr(3), fr(5), fr(9)];
    let (cw, _, proof) = prove_opening(&table(), &ry);
    let other = commit_one(&pc_params().gen_1, &fr(1), &fr(4242)).unwrap();
    let mut t = Transcript::new("open");
    assert!(inner_product_verify(&pc_params(), &ry, &cw, &other, &proof, &mut t).is_err());
}

#[test]
fn opening_shapes_and_parameters_checked() {
    let ry = vec![fr(3), fr(5), fr(9)];
    let (cw, commit_ry, proof) = prove_opening(&table(), &ry);
    let mut t = Transcript::new("open");
    assert_eq!(
        inner_product_verify(&pc_params(), &ry, &cw[..1].to_vec(), &commit_ry, &proof, &mut t),
        Err(SynthesisError::MalformedProof)
    );
    let mut small = pc_params();
    small.gen_n.generators.truncate(2);
    let mut t = Transcript::new("open");
    assert_eq!(
        inner_product_verify(&small, &ry, &cw, &commit_ry, &proof, &mut t),
        Err(SynthesisError::ParameterMismatch)
    );
}

fn sc_gens() -> (MultiCommitmentSetupParameters, MultiCommitmentSetupParameters) {
    (
        MultiCommitmentSetupParameters::from_seeds(&vec![301], 303),
        MultiCommitmentSetupParameters::from_seeds(&vec![311, 312, 313], 314),
    )
}

/// A committed sumcheck of `rounds` rounds with round polynomials of three
/// coefficients, starting from the claim `c0`.
fn prove_sumcheck(c0: &Fr, rounds: usize) -> (GroupElem, SumCheckProof, Fr) {
    let (g1, g3) = sc_gens();
    let mut t = Transcript::new("sc");
    let mut claim = *c0;
    let mut claim_blind = fr(17);
    let start = commit_one(&g1, &claim, &claim_blind).unwrap();
    let mut claim_commit = start;
    let (mut comm_polys, mut comm_evals, mut proofs) = (Vec::new(), Vec::new(), Vec::new());
    for j in 0..rounds as u64 {
        let (c1, c2) = (fr(10 + j), fr(20 + j));
        let c0 = claim.sub(&c1).sub(&c2).mul(&fr(2).inverse());
        let poly = vec![c0, c1, c2];
        assert_eq!(evaluate_poly(&poly, &Fr::zero()).add(&evaluate_poly(&poly, &Fr::one())), claim);
        let bp = fr(40 + j);
        let commit_poly = poly_commit_vec(&g3.generators, &poly, &g3.h, &bp).unwrap();
        append_point(&mut t, "comm_poly", &commit_poly);
        let r = challenge_scalar(&mut t, "challenge_nextround");
        let eval = evaluate_poly(&poly, &r);
        let be = fr(50 + j);
        let commit_eval = commit_one(&g1, &eval, &be).unwrap();
        append_point(&mut t, "comm_claim_per_round", &claim_commit);
        append_point(&mut t, "comm_eval", &commit_eval);
        let w0 = challenge_scalar(&mut t, "combine_two_claims_to_one");
        let w1 = challenge_scalar(&mut t, "combine_two_claims_to_one");
        append_point(&mut t, "Cx", &commit_poly);
        let claim_value = claim_commit.mul(&w0).add(&commit_eval.mul(&w1));
        append_point(&mut t, "Cy", &claim_value);
        let d = vec![fr(60 + j), fr(61 + j), fr(62 + j)];
        let bd = fr(70 + j);
        let d_commit = poly_commit_vec(&g3.generators, &d, &g3.h, &bd).unwrap();
        let mut coeffs = Vec::new();
        let mut rc = Fr::one();
        for _ in 0..3 {
            coeffs.push(w0.add(&w1.mul(&rc)));
            rc = rc.mul(&r);
        }
        coeffs[0] = coeffs[0].add(&w0);
        let dot = inner(&d, &coeffs);
        let b_dot = fr(80 + j);
        let dot_cd_commit = commit_one(&g1, &dot, &b_dot).unwrap();
        append_point(&mut t, "delta", &d_commit);
        append_point(&mut t, "beta", &dot_cd_commit);
        let c = challenge_scalar(&mut t, "c");
        let z: Vec<Fr> = (0..3).map(|i| c.mul(&poly[i]).add(&d[i])).collect();
        let z_delta = c.mul(&bp).add(&bd);
        let z_beta = c.mul(&w0.mul(&claim_blind).add(&w1.mul(&be))).add(&b_dot);
        comm_polys.push(commit_poly);
        comm_evals.push(commit_eval);
        proofs.push(SumCheckEvalProof { d_commit, dot_cd_commit, z, z_delta, z_beta });
        claim = eval;
        claim_blind = be;
        claim_commit = commit_eval;
    }
    (start, SumCheckProof { comm_polys, comm_evals, proofs }, claim)
}

#[test]
fn committed_sumcheck_accepted() {
    let (g1, g3) = sc_gens();
    let (start, proof, _) = prove_sumcheck(&fr(1000), 2);
    let mut t = Transcript::new("sc");
    let (rx, fin) = sum_check_verify(&g1, &g3, &proof, &start, 3, 2, &mut t).unwrap();
    assert_eq!(rx.len(), 2);
    assert_eq!(fin, proof.comm_evals[1]);
}

#[test]
fn committed_sumcheck_with_wrong_claim_rejected() {
    let (g1, g3) = sc_gens();
    let (_, proof, _) = prove_sumcheck(&fr(1000), 2);
    let other = commit_one(&g1, &fr(1001), &fr(17)).unwrap();
    let mut t = Transcript::new("sc");
    assert_eq!(
        sum_check_verify(&g1, &g3, &proof, &other, 3, 2, &mut t).err(),
        Some(SynthesisError::CryptographicCheckFailed)
    );
}

#[test]
fn committed_sumcheck_shapes_checked() {
    let (g1, g3) = sc_gens();
    let (start, proof, _) = prove_sumcheck(&fr(1000), 2);
    let mut t = Transcript::new("sc");
    assert_eq!(
        sum_check_verify(&g1, &g3, &proof, &start, 3, 3, &mut t).err(),
        Some(SynthesisError::MalformedProof)
    );
    let mut t = Transcript::new("sc");
    assert_eq!(
        sum_check_verify(&g1, &g3, &proof, &start, 4, 2, &mut t).err(),
        Some(SynthesisError::MalformedProof)
    );
    let small = MultiCommitmentSetupParameters { generators: g3.generators[..2].to_vec(), h: g3.h };
    let mut t = Transcript::new("sc");
    assert_eq!(
        sum_check_verify(&g1, &small, &proof, &start, 3, 2, &mut t).err(),
        Some(SynthesisError::ParameterMismatch)
    );
}

#[test]
fn committed_sumcheck_of_unsupported_degree_is_parameter_mismatch() {
    let (g1, g3) = sc_gens();
    let proof = SumCheckProof {
        comm_polys: vec![GroupElem::zero()],
        comm_evals: vec![GroupElem::zero()],
        proofs: vec![SumCheckEvalProof {
            d_commit: GroupElem::zero(),
            dot_cd_commit: GroupElem::zero(),
            z: Vec::new(),
            z_delta: fr(0),
            z_beta: fr(0),
        }],
    };
    let mut t = Transcript::new("sc");
    assert_eq!(
        sum_check_verify(&g1, &g3, &proof, &GroupElem::zero(), 0, 1, &mut t).err(),
        Some(SynthesisError::ParameterMismatch)
    );
}
