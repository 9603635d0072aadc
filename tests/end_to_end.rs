use spartan::commitments::{
    commit_one, poly_commit_vec, MultiCommitmentSetupParameters, PolyCommitmentSetupParameters,
    R1CSEvalsSetupParameters, R1CSSatisfiedSetupParameters, SetupParametersWithSpark,
    SumCheckCommitmentSetupParameters,
};
use spartan::poly::{eval_eq, eval_eq_x_y, evaluate_mle, evaluate_poly, evaluate_value, MatrixEntry};
use spartan::proofs::{
    AddrTsEvals, DotProductProof, DotpClaims, EncodeCommit, EqProof, HashLayerProof, InnerProductProof,
    KnowledgeProductCommit, KnowledgeProductProof, KnowledgeProof, LayerProof, MatrixEvals, MemoryClaims,
    NIZKProof, ProductCircuitEvalProof, ProductLayerProof, ProductProof, R1CSEvalsProof, R1CSInstance,
    R1CSSatProof, SNARKProof, SumCheckEvalProof, SumCheckProof,
};
use spartan::sparse::{combine_evals, equalize_length};
use spartan::transcript::{
    append_point, append_points, append_scalar, append_scalars, append_text, challenge_scalar,
    challenge_scalars,
};
use spartan::{nizk_verify, snark_verify};
use spartan::{Fr, GroupElem};
use spartan::transcript::ProofTranscript as Transcript;

fn fr(x: u64) -> Fr {
    Fr::from_u64(x)
}

fn mcs(seeds: &[u64]) -> MultiCommitmentSetupParameters {
    MultiCommitmentSetupParameters::from_seeds(&seeds.to_vec(), 999)
}

fn params() -> R1CSSatisfiedSetupParameters {
    R1CSSatisfiedSetupParameters {
        sc_params: SumCheckCommitmentSetupParameters {
            gen_1: mcs(&[101]),
            gen_3: mcs(&[311, 312, 313]),
            gen_4: mcs(&[401, 402, 403, 404]),
        },
        pc_params: PolyCommitmentSetupParameters { gen_1: mcs(&[101]), gen_n: mcs(&[201, 202, 203, 204]) },
    }
}

fn inner(a: &[Fr], b: &[Fr]) -> Fr {
    a.iter().zip(b).fold(Fr::zero(), |s, (x, y)| s.add(&x.mul(y)))
}

fn bind_top(t: &[Fr], r: &Fr) -> Vec<Fr> {
    let h = t.len() / 2;
    (0..h).map(|k| t[k].add(&r.mul(&t[k + h].sub(&t[k])))).collect()
}

/// Coefficients of the polynomial of degree `e.len() - 1` through `(i, e_i)`.
fn interpolate(e: &[Fr]) -> Vec<Fr> {
    let two = fr(2);
    let three = fr(3);
    let half = two.inverse();
    if e.len() == 3 {
        let c2 = e[2].sub(&two.mul(&e[1])).add(&e[0]).mul(&half);
        return vec![e[0], e[1].sub(&e[0]).sub(&c2), c2];
    }
    let d1 = e[1].sub(&e[0]);
    let d2 = e[2].sub(&two.mul(&e[1])).add(&e[0]);
    let d3 = e[3].sub(&three.mul(&e[2])).add(&three.mul(&e[1])).sub(&e[0]);
    vec![
        e[0],
        d1.sub(&d2.mul(&half)).add(&d3.mul(&three.inverse())),
        d2.mul(&half).sub(&d3.mul(&half)),
        d3.mul(&fr(6).inverse()),
    ]
}

/// The three-table sumcheck term `e * (a * b - c)` or the two-table term
/// `a * b`, summed at `X = x` of the first variable.
fn round_sum(tables: &[Vec<Fr>], x: u64) -> Fr {
    let xv = fr(x);
    let b: Vec<Vec<Fr>> = tables.iter().map(|t| bind_top(t, &xv)).collect();
    let mut s = Fr::zero();
    for k in 0..b[0].len() {
        let term = if b.len() == 4 {
            b[0][k].mul(&b[1][k].mul(&b[2][k]).sub(&b[3][k]))
        } else {
            b[0][k].mul(&b[1][k])
        };
        s = s.add(&term);
    }
    s
}

struct Claim {
    value: Fr,
    blind: Fr,
    commit: GroupElem,
}

/// A committed sumcheck over `tables` (see `round_sum`), from `claim`.
fn prove_sumcheck(
    t: &mut Transcript,
    g1: &MultiCommitmentSetupParameters,
    gn: &MultiCommitmentSetupParameters,
    mut tables: Vec<Vec<Fr>>,
    size: usize,
    mut claim: Claim,
    seed: u64,
) -> (SumCheckProof, Vec<Fr>, Claim, Vec<Fr>) {
    let (mut comm_polys, mut comm_evals, mut proofs, mut rs) = (Vec::new(), Vec::new(), Vec::new(), Vec::new());
    let mut j = seed;
    while tables[0].len() > 1 {
        j += 10;
        let evals: Vec<Fr> = (0..size as u64).map(|x| round_sum(&tables, x)).collect();
        let poly = interpolate(&evals);
        assert_eq!(evaluate_poly(&poly, &Fr::zero()).add(&evaluate_poly(&poly, &Fr::one())), claim.value);
        let bp = fr(j + 1);
        let commit_poly = poly_commit_vec(&gn.generators, &poly, &gn.h, &bp).unwrap();
        append_point(t, "comm_poly", &commit_poly);
        let r = challenge_scalar(t, "challenge_nextround");
        let eval = evaluate_poly(&poly, &r);
        let be = fr(j + 2);
        let commit_eval = commit_one(g1, &eval, &be).unwrap();
        append_point(t, "comm_claim_per_round", &claim.commit);
        append_point(t, "comm_eval", &commit_eval);
        let w0 = challenge_scalar(t, "combine_two_claims_to_one");
        let w1 = challenge_scalar(t, "combine_two_claims_to_one");
        append_point(t, "Cx", &commit_poly);
        append_point(t, "Cy", &claim.commit.mul(&w0).add(&commit_eval.mul(&w1)));
        let d: Vec<Fr> = (0..size as u64).map(|i| fr(j * 7 + i)).collect();
        let bd = fr(j + 3);
        let d_commit = poly_commit_vec(&gn.generators, &d, &gn.h, &bd).unwrap();
        let mut coeffs = Vec::new();
        let mut rc = Fr::one();
        for _ in 0..size {
            coeffs.push(w0.add(&w1.mul(&rc)));
            rc = rc.mul(&r);
        }
        coeffs[0] = coeffs[0].add(&w0);
        let b_dot = fr(j + 4);
        let dot_cd_commit = commit_one(g1, &inner(&d, &coeffs), &b_dot).unwrap();
        append_point(t, "delta", &d_commit);
        append_point(t, "beta", &dot_cd_commit);
        let c = challenge_scalar(t, "c");
        let z: Vec<Fr> = (0..size).map(|i| c.mul(&poly[i]).add(&d[i])).collect();
        proofs.push(SumCheckEvalProof {
            d_commit,
            dot_cd_commit,
            z,
            z_delta: c.mul(&bp).add(&bd),
            z_beta: c.mul(&w0.mul(&claim.blind).add(&w1.mul(&be))).add(&b_dot),
        });
        comm_polys.push(commit_poly);
        comm_evals.push(commit_eval);
        rs.push(r);
        tables = tables.iter().map(|tb| bind_top(tb, &r)).collect();
        claim = Claim { value: eval, blind: be, commit: commit_eval };
    }
    let finals = tables.iter().map(|tb| tb[0]).collect();
    (SumCheckProof { comm_polys, comm_evals, proofs }, rs, claim, finals)
}

fn prove_eq(t: &mut Transcript, h: &GroupElem, c1: &GroupElem, b1: &Fr, c2: &GroupElem, b2: &Fr, k: u64) -> EqProof {
    let k = fr(k);
    let alpha = h.mul(&k);
    append_point(t, "C1", c1);
    append_point(t, "C2", c2);
    append_point(t, "alpha", &alpha);
    let c = challenge_scalar(t, "c");
    EqProof { alpha, z: k.add(&c.mul(&b1.sub(b2))) }
}

/// Size of the witness part of `z`: the witness padded to a power of two.
fn witness_width(num_variables: usize) -> usize {
    (num_variables - 1).next_power_of_two()
}

/// `a * b = c` repeated over `num_constraints` constraints, with
/// `num_variables` variables: `a`, `b`, the public input `c`, and further
/// copies of `a` as witness.
fn instance_of(num_constraints: usize, num_variables: usize) -> R1CSInstance {
    let one = Fr::one();
    let c_col = witness_width(num_variables) + 1;
    let mut a_matrix = Vec::new();
    let mut b_matrix = Vec::new();
    let mut c_matrix = Vec::new();
    for i in 0..num_constraints {
        a_matrix.push(MatrixEntry { row: i, col: 0, val: one });
        b_matrix.push(MatrixEntry { row: i, col: 1, val: one });
        c_matrix.push(MatrixEntry { row: i, col: c_col, val: one });
    }
    R1CSInstance { num_constraints, num_aux: num_variables - 1, num_inputs: 1, a_matrix, b_matrix, c_matrix }
}

fn instance() -> R1CSInstance {
    instance_of(6, 11)
}

fn mat_vec(m: &[MatrixEntry], z: &[Fr], rows: usize) -> Vec<Fr> {
    let mut out = vec![Fr::zero(); rows];
    for e in m {
        out[e.row] = out[e.row].add(&e.val.mul(&z[e.col]));
    }
    out
}

fn log2(n: usize) -> usize {
    n.next_power_of_two().trailing_zeros() as usize
}

fn prove(a: u64, b: u64) -> NIZKProof {
    prove_on(a, b, 6, 11)
}

fn prove_on(a: u64, b: u64, num_constraints: usize, num_variables: usize) -> NIZKProof {
    let mut t = Transcript::new("Spartan NIZK proof");
    let (r1cs_satisfied_proof, rx, ry) = prove_r1cs(&mut t, a, b, num_constraints, num_variables);
    NIZKProof { r1cs_satisfied_proof, rx, ry }
}

fn prove_r1cs(
    t: &mut Transcript,
    a: u64,
    b: u64,
    num_constraints: usize,
    num_variables: usize,
) -> (R1CSSatProof, Vec<Fr>, Vec<Fr>) {
    let p = params();
    let sc = &p.sc_params;
    let pc = &p.pc_params;
    let h = sc.gen_1.h;
    let r1cs = instance_of(num_constraints, num_variables);
    let width = witness_width(num_variables);
    let rows = num_constraints.next_power_of_two();
    let tail = log2(width);
    let (w_rows, w_cols) = (1usize << (tail / 2), 1usize << (tail - tail / 2));
    let (av, bv) = (fr(a), fr(b));
    let mut w = vec![av, bv];
    w.extend(vec![av; num_variables - 3]);
    w.resize(width, Fr::zero());
    let mut z = w.clone();
    z.push(Fr::one());
    z.push(av.mul(&bv));
    z.resize(2 * width, Fr::zero());
    let row_blinds: Vec<Fr> = (0..w_rows as u64).map(|i| fr(900 + i)).collect();
    let cw: Vec<GroupElem> = (0..w_rows)
        .map(|i| {
            poly_commit_vec(&pc.gen_n.generators, &w[w_cols * i..w_cols * (i + 1)].to_vec(), &pc.gen_n.h, &row_blinds[i])
                .unwrap()
        })
        .collect();
    append_points(t, "poly_commitment", &cw);
    let tau = challenge_scalars(t, "challenge_tau", log2(rows));
    // sumcheck #1 over the constraints
    let az = mat_vec(&r1cs.a_matrix, &z, rows);
    let bz = mat_vec(&r1cs.b_matrix, &z, rows);
    let cz = mat_vec(&r1cs.c_matrix, &z, rows);
    let start = Claim { value: Fr::zero(), blind: Fr::zero(), commit: commit_one(&sc.gen_1, &Fr::zero(), &Fr::zero()).unwrap() };
    let (proof_one, rx, fin1, finals) =
        prove_sumcheck(t, &sc.gen_1, &sc.gen_4, vec![eval_eq(&tau), az, bz, cz], 4, start, 100);
    let (va, vb, vc) = (finals[1], finals[2], finals[3]);
    let (ba, bb, bc, bp) = (fr(61), fr(62), fr(63), fr(64));
    let va_commit = commit_one(&sc.gen_1, &va, &ba).unwrap();
    let vb_commit = commit_one(&sc.gen_1, &vb, &bb).unwrap();
    let vc_commit = commit_one(&sc.gen_1, &vc, &bc).unwrap();
    let prod_commit = commit_one(&sc.gen_1, &va.mul(&vb), &bp).unwrap();
    // knowledge of the opening of vc
    let (t1, t2) = (fr(71), fr(72));
    let t_commit = commit_one(&sc.gen_1, &t1, &t2).unwrap();
    append_point(t, "C", &vc_commit);
    append_point(t, "alpha", &t_commit);
    let c = challenge_scalar(t, "c");
    let knowledge_proof = KnowledgeProof { t_commit, z1: t1.add(&c.mul(&vc)), z2: t2.add(&c.mul(&bc)) };
    // va * vb = prod
    let bs: Vec<Fr> = (0..5).map(|i| fr(81 + i)).collect();
    let alpha = commit_one(&sc.gen_1, &bs[0], &bs[1]).unwrap();
    let beta = commit_one(&sc.gen_1, &bs[2], &bs[3]).unwrap();
    let delta = poly_commit_vec(&vec![va_commit], &vec![bs[2]], &h, &bs[4]).unwrap();
    for (l, g) in [("X", &va_commit), ("Y", &vb_commit), ("Z", &prod_commit), ("alpha", &alpha), ("beta", &beta), ("delta", &delta)] {
        append_point(t, l, g);
    }
    let c = challenge_scalar(t, "c");
    let product_proof = ProductProof {
        commit_alpha: alpha,
        commit_beta: beta,
        commit_delta: delta,
        z: vec![
            bs[0].add(&c.mul(&va)),
            bs[1].add(&c.mul(&ba)),
            bs[2].add(&c.mul(&vb)),
            bs[3].add(&c.mul(&bb)),
            bs[4].add(&c.mul(&bp.sub(&ba.mul(&vb)))),
        ],
    };
    append_point(t, "comm_Az_claim", &va_commit);
    append_point(t, "comm_Bz_claim", &vb_commit);
    append_point(t, "comm_Cz_claim", &vc_commit);
    append_point(t, "comm_prod_Az_Bz_claims", &prod_commit);
    let e = eval_eq_x_y(&rx, &tau);
    let c1 = prod_commit.sub(&vc_commit).mul(&e);
    let sc1_eq_proof = prove_eq(t, &h, &c1, &e.mul(&bp.sub(&bc)), &fin1.commit, &fin1.blind, 91);
    // sumcheck #2 over the variables
    let r_a = challenge_scalar(t, "challenege_Az");
    let r_b = challenge_scalar(t, "challenege_Bz");
    let r_c = challenge_scalar(t, "challenege_Cz");
    let chi_x = eval_eq(&rx);
    let mut m = vec![Fr::zero(); 2 * width];
    for (mat, r) in [(&r1cs.a_matrix, r_a), (&r1cs.b_matrix, r_b), (&r1cs.c_matrix, r_c)] {
        for en in mat.iter() {
            m[en.col] = m[en.col].add(&r.mul(&chi_x[en.row]).mul(&en.val));
        }
    }
    let claim2_commit = va_commit.mul(&r_a).add(&vb_commit.mul(&r_b)).add(&vc_commit.mul(&r_c));
    let claim2 = Claim {
        value: r_a.mul(&va).add(&r_b.mul(&vb)).add(&r_c.mul(&vc)),
        blind: r_a.mul(&ba).add(&r_b.mul(&bb)).add(&r_c.mul(&bc)),
        commit: claim2_commit,
    };
    let (proof_two, ry, fin2, finals2) = prove_sumcheck(t, &sc.gen_1, &sc.gen_3, vec![m, z.clone()], 3, claim2, 200);
    // opening of the witness at ry[1..]
    let ry_tail = ry[1..].to_vec();
    let l_eq = eval_eq(&ry_tail[..tail / 2].to_vec());
    let mut av_ = eval_eq(&ry_tail[tail / 2..].to_vec());
    let mut x: Vec<Fr> =
        (0..w_cols).map(|j| inner(&l_eq, &(0..w_rows).map(|i| w[w_cols * i + j]).collect::<Vec<_>>())).collect();
    let v_w = inner(&x, &av_);
    let bvw = fr(4242);
    let commit_ry = commit_one(&pc.gen_1, &v_w, &bvw).unwrap();
    let mut blind = inner(&l_eq, &row_blinds).add(&bvw);
    let commit_lz = poly_commit_vec(&cw, &l_eq, &pc.gen_1.h, &Fr::zero()).unwrap();
    append_text(t, "protocol-name", "polynomial evaluation proof");
    append_point(t, "Cx", &commit_lz);
    append_point(t, "Cy", &commit_ry);
    let g1 = pc.gen_1.generators[0];
    let mut g: Vec<GroupElem> = pc.gen_n.generators[..w_cols].to_vec();
    let (mut l_vec, mut r_vec) = (Vec::new(), Vec::new());
    let mut round = 0u64;
    while x.len() > 1 {
        let k = x.len() / 2;
        let (bl, br) = (fr(700 + round), fr(800 + round));
        let l = poly_commit_vec(&g[k..].to_vec(), &x[..k].to_vec(), &h, &bl).unwrap().add(&g1.mul(&inner(&x[..k], &av_[k..])));
        let r = poly_commit_vec(&g[..k].to_vec(), &x[k..].to_vec(), &h, &br).unwrap().add(&g1.mul(&inner(&x[k..], &av_[..k])));
        append_point(t, "L", &l);
        append_point(t, "R", &r);
        let u = challenge_scalar(t, "u");
        let ui = u.inverse();
        x = (0..k).map(|i| x[i].mul(&u).add(&x[k + i].mul(&ui))).collect();
        av_ = (0..k).map(|i| av_[i].mul(&ui).add(&av_[k + i].mul(&u))).collect();
        g = (0..k).map(|i| g[i].mul(&ui).add(&g[k + i].mul(&u))).collect();
        blind = bl.mul(&u.mul(&u)).add(&blind).add(&br.mul(&ui.mul(&ui)));
        l_vec.push(l);
        r_vec.push(r);
        round += 1;
    }
    let (d, r_beta, r_delta) = (fr(31), fr(32), fr(33));
    let beta = commit_one(&pc.gen_1, &d, &r_beta).unwrap();
    let delta = poly_commit_vec(&vec![g[0]], &vec![d], &h, &r_delta).unwrap();
    append_point(t, "delta", &delta);
    append_point(t, "beta", &beta);
    let c = challenge_scalar(t, "challenge_tau");
    let dot_proof = DotProductProof {
        inner_product_proof: InnerProductProof { l_vec, r_vec },
        delta,
        beta,
        z1: av_[0].mul(&c).mul(&x[0]).add(&d),
        z2: av_[0].mul(&c).mul(&blind).add(&av_[0].mul(&r_beta)).add(&r_delta),
    };
    // final equality: z(ry) times the combined matrix evaluation
    let ry0 = ry[0];
    let m_ry = finals2[0];
    let eval_input = inner(&eval_eq(&ry_tail)[..2].to_vec(), &[Fr::one(), av.mul(&bv)]);
    let commit_input = commit_one(&pc.gen_1, &eval_input, &Fr::zero()).unwrap();
    let commit_eval_z = commit_ry.mul(&Fr::one().sub(&ry0)).add(&commit_input.mul(&ry0));
    let c1 = commit_eval_z.mul(&m_ry);
    let b1 = m_ry.mul(&Fr::one().sub(&ry0)).mul(&bvw);
    let sc2_eq_proof = prove_eq(t, &h, &c1, &b1, &fin2.commit, &fin2.blind, 92);
    let sat = R1CSSatProof {
        commit_witness: cw,
        proof_one,
        knowledge_product_commit: KnowledgeProductCommit { va_commit, vb_commit, vc_commit, prod_commit },
        knowledge_product_proof: KnowledgeProductProof { knowledge_proof, product_proof },
        sc1_eq_proof,
        proof_two,
        product_proof: dot_proof,
        commit_ry,
        sc2_eq_proof,
    };
    (sat, rx, ry)
}

/// Six constraints over eleven variables, verified against the right and
/// a wrong public input.
#[test]
fn small_squat() {
    let proof = prove_on(3, 5, 6, 11);
    assert_eq!(nizk_verify(&params(), &instance_of(6, 11), &vec![fr(15)], &proof), Ok(true));
    assert_eq!(nizk_verify(&params(), &instance_of(6, 11), &vec![fr(3)], &proof), Ok(false));
}

/// Eleven constraints over six variables, verified against the right and
/// a wrong public input.
#[test]
fn small_tall() {
    let proof = prove_on(4, 7, 11, 6);
    assert_eq!(nizk_verify(&params(), &instance_of(11, 6), &vec![fr(28)], &proof), Ok(true));
    assert_eq!(nizk_verify(&params(), &instance_of(11, 6), &vec![fr(4)], &proof), Ok(false));
}

#[test]
fn nizk_accepts_satisfying_witness() {
    let proof = prove(3, 5);
    assert_eq!(nizk_verify(&params(), &instance(), &vec![fr(15)], &proof), Ok(true));
}

#[test]
fn nizk_rejects_other_public_input() {
    let proof = prove(3, 5);
    assert_eq!(nizk_verify(&params(), &instance(), &vec![fr(3)], &proof), Ok(false));
}

#[test]
fn nizk_rejects_altered_proof() {
    let mut proof = prove(3, 5);
    let z = &mut proof.r1cs_satisfied_proof.knowledge_product_proof.knowledge_proof.z1;
    *z = z.add(&Fr::one());
    assert_eq!(nizk_verify(&params(), &instance(), &vec![fr(15)], &proof), Ok(false));
    let mut proof = prove(3, 5);
    proof.r1cs_satisfied_proof.sc2_eq_proof.z = proof.r1cs_satisfied_proof.sc2_eq_proof.z.add(&Fr::one());
    assert_eq!(nizk_verify(&params(), &instance(), &vec![fr(15)], &proof), Ok(false));
}

#[test]
fn nizk_rejects_single_byte_flips() {
    let proof = prove(3, 5);
    let sat = &proof.r1cs_satisfied_proof;
    let targets: Vec<Fr> = vec![
        sat.proof_one.proofs[0].z_beta,
        sat.proof_two.proofs[1].z[2],
        sat.product_proof.z1,
        sat.sc1_eq_proof.z,
    ];
    for (which, value) in targets.iter().enumerate() {
        let bytes = value.to_bytes();
        for pos in 0..bytes.len() {
            let mut b = bytes.clone();
            b[pos] ^= 0x10;
            let altered_value = match Fr::from_bytes(&b) {
                Some(v) => v,
                None => continue,
            };
            let mut altered = prove(3, 5);
            let s = &mut altered.r1cs_satisfied_proof;
            match which {
                0 => s.proof_one.proofs[0].z_beta = altered_value,
                1 => s.proof_two.proofs[1].z[2] = altered_value,
                2 => s.product_proof.z1 = altered_value,
                _ => s.sc1_eq_proof.z = altered_value,
            }
            assert_eq!(nizk_verify(&params(), &instance(), &vec![fr(15)], &altered), Ok(false));
        }
    }
}

#[test]
fn nizk_rejects_truncated_sumcheck() {
    let mut proof = prove(3, 5);
    proof.r1cs_satisfied_proof.proof_one.comm_polys.pop();
    assert_eq!(
        nizk_verify(&params(), &instance(), &vec![fr(15)], &proof),
        Err(spartan::SynthesisError::MalformedProof)
    );
}

fn evals_params() -> R1CSEvalsSetupParameters {
    R1CSEvalsSetupParameters {
        derefs_params: PolyCommitmentSetupParameters {
            gen_1: mcs(&[501]),
            gen_n: mcs(&(510..518).collect::<Vec<u64>>()),
        },
        ops_params: PolyCommitmentSetupParameters {
            gen_1: mcs(&[601]),
            gen_n: mcs(&(610..626).collect::<Vec<u64>>()),
        },
        mem_params: PolyCommitmentSetupParameters {
            gen_1: mcs(&[701]),
            gen_n: mcs(&(710..718).collect::<Vec<u64>>()),
        },
    }
}

fn eq_vec(r: &[Fr]) -> Vec<Fr> {
    eval_eq(&r.to_vec())
}

/// Row commitments of a flat table opened at points of dimension `dim`.
fn commit_rows(p: &PolyCommitmentSetupParameters, flat: &[Fr], dim: usize, seed: u64) -> (Vec<GroupElem>, Vec<Fr>) {
    let cols = 1usize << (dim - dim / 2);
    let rows = flat.len() / cols;
    let blinds: Vec<Fr> = (0..rows as u64).map(|i| fr(seed + i)).collect();
    let cw = (0..rows)
        .map(|i| poly_commit_vec(&p.gen_n.generators, &flat[cols * i..cols * (i + 1)].to_vec(), &p.gen_n.h, &blinds[i]).unwrap())
        .collect();
    (cw, blinds)
}

/// Opens the committed flat table at `point` to its value, committed with
/// blind zero.
fn prove_opening(
    t: &mut Transcript,
    p: &PolyCommitmentSetupParameters,
    flat: &[Fr],
    point: &[Fr],
    cw: &[GroupElem],
    blinds: &[Fr],
) -> DotProductProof {
    let dim = point.len();
    let half = dim / 2;
    let cols = 1usize << (dim - half);
    let rows = flat.len() / cols;
    let h = p.gen_n.h;
    let g1 = p.gen_1.generators[0];
    let l_eq = eq_vec(&point[..half]);
    let mut a = eq_vec(&point[half..]);
    let mut x: Vec<Fr> =
        (0..cols).map(|j| inner(&l_eq, &(0..rows).map(|i| flat[cols * i + j]).collect::<Vec<_>>())).collect();
    let v = inner(&x, &a);
    let commit_ry = commit_one(&p.gen_1, &v, &Fr::zero()).unwrap();
    let mut blind = inner(&l_eq, blinds);
    let commit_lz = poly_commit_vec(&cw.to_vec(), &l_eq, &p.gen_1.h, &Fr::zero()).unwrap();
    append_text(t, "protocol-name", "polynomial evaluation proof");
    append_point(t, "Cx", &commit_lz);
    append_point(t, "Cy", &commit_ry);
    let mut g: Vec<GroupElem> = p.gen_n.generators[..cols].to_vec();
    let (mut l_vec, mut r_vec) = (Vec::new(), Vec::new());
    let mut round = 0u64;
    while x.len() > 1 {
        let k = x.len() / 2;
        let (bl, br) = (fr(1700 + round), fr(1800 + round));
        let l = poly_commit_vec(&g[k..].to_vec(), &x[..k].to_vec(), &h, &bl).unwrap().add(&g1.mul(&inner(&x[..k], &a[k..])));
        let r = poly_commit_vec(&g[..k].to_vec(), &x[k..].to_vec(), &h, &br).unwrap().add(&g1.mul(&inner(&x[k..], &a[..k])));
        append_point(t, "L", &l);
        append_point(t, "R", &r);
        let u = challenge_scalar(t, "u");
        let ui = u.inverse();
        x = (0..k).map(|i| x[i].mul(&u).add(&x[k + i].mul(&ui))).collect();
        a = (0..k).map(|i| a[i].mul(&ui).add(&a[k + i].mul(&u))).collect();
        g = (0..k).map(|i| g[i].mul(&ui).add(&g[k + i].mul(&u))).collect();
        blind = bl.mul(&u.mul(&u)).add(&blind).add(&br.mul(&ui.mul(&ui)));
        l_vec.push(l);
        r_vec.push(r);
        round += 1;
    }
    let (d, r_beta, r_delta) = (fr(131), fr(132), fr(133));
    let beta = commit_one(&p.gen_1, &d, &r_beta).unwrap();
    let delta = poly_commit_vec(&vec![g[0]], &vec![d], &h, &r_delta).unwrap();
    append_point(t, "delta", &delta);
    append_point(t, "beta", &beta);
    let c = challenge_scalar(t, "challenge_tau");
    DotProductProof {
        inner_product_proof: InnerProductProof { l_vec, r_vec },
        delta,
        beta,
        z1: a[0].mul(&c).mul(&x[0]).add(&d),
        z2: a[0].mul(&c).mul(&blind).add(&a[0].mul(&r_beta)).add(&r_delta),
    }
}

type Dotp = (Vec<Fr>, Vec<Fr>, Vec<Fr>);

/// Proves the grand products of `leaves` (all of one power-of-two length)
/// and, on the last layer, the sums of `row * col * val` over each half of
/// each `dotp` triple. Returns the proof and the final point.
fn prove_circuits(t: &mut Transcript, leaves: &[Vec<Fr>], dotp: &[Dotp]) -> (ProductCircuitEvalProof, Vec<Fr>) {
    let n = leaves[0].len();
    let layers = log2(n);
    let trees: Vec<Vec<Vec<Fr>>> = leaves
        .iter()
        .map(|lv| {
            let mut tr = vec![lv.clone()];
            while tr.last().unwrap().len() > 1 {
                let cur = tr.last().unwrap();
                let h = cur.len() / 2;
                tr.push((0..h).map(|k| cur[k].mul(&cur[k + h])).collect());
            }
            tr.reverse();
            tr
        })
        .collect();
    let mut claims: Vec<Fr> = trees.iter().map(|tr| tr[0][0]).collect();
    let mut rands: Vec<Fr> = Vec::new();
    let mut layer_proofs = Vec::new();
    let mut claim_dotp = DotpClaims { row: Vec::new(), col: Vec::new(), val: Vec::new() };
    for i in 0..layers {
        let last = i + 1 == layers;
        let mut list = claims.clone();
        let mut dtabs: Vec<Vec<Vec<Fr>>> = Vec::new();
        if last {
            let h = n / 2;
            for (row, col, val) in dotp {
                for part in 0..2 {
                    let rg = part * h..(part + 1) * h;
                    let tabs = vec![row[rg.clone()].to_vec(), col[rg.clone()].to_vec(), val[rg].to_vec()];
                    list.push((0..h).fold(Fr::zero(), |s, k| s.add(&tabs[0][k].mul(&tabs[1][k]).mul(&tabs[2][k]))));
                    dtabs.push(tabs);
                }
            }
        }
        let coeffs = challenge_scalars(t, "rand_coeffs_next_layer", list.len());
        let mut claim = inner(&list, &coeffs);
        let nc = trees.len();
        let w = 1usize << i;
        let mut e = eq_vec(&rands);
        let mut ls: Vec<Vec<Fr>> = trees.iter().map(|tr| tr[i + 1][..w].to_vec()).collect();
        let mut rs_: Vec<Vec<Fr>> = trees.iter().map(|tr| tr[i + 1][w..].to_vec()).collect();
        let mut polys = Vec::new();
        let mut r = Vec::new();
        for _ in 0..i {
            let mut evals = Vec::new();
            for x in 0..4u64 {
                let xv = fr(x);
                let eb = bind_top(&e, &xv);
                let mut s = Fr::zero();
                for c in 0..nc {
                    let (lb, rb) = (bind_top(&ls[c], &xv), bind_top(&rs_[c], &xv));
                    for k in 0..eb.len() {
                        s = s.add(&coeffs[c].mul(&eb[k]).mul(&lb[k]).mul(&rb[k]));
                    }
                }
                for (d, tabs) in dtabs.iter().enumerate() {
                    let b: Vec<Vec<Fr>> = tabs.iter().map(|tb| bind_top(tb, &xv)).collect();
                    for k in 0..b[0].len() {
                        s = s.add(&coeffs[nc + d].mul(&b[0][k]).mul(&b[1][k]).mul(&b[2][k]));
                    }
                }
                evals.push(s);
            }
            let poly = interpolate(&evals);
            assert_eq!(evaluate_poly(&poly, &Fr::zero()).add(&evaluate_poly(&poly, &Fr::one())), claim);
            append_scalars(t, "comm_poly", &poly);
            let rj = challenge_scalar(t, "challenge_nextround");
            claim = evaluate_poly(&poly, &rj);
            e = bind_top(&e, &rj);
            ls = ls.iter().map(|tb| bind_top(tb, &rj)).collect();
            rs_ = rs_.iter().map(|tb| bind_top(tb, &rj)).collect();
            dtabs = dtabs.iter().map(|tabs| tabs.iter().map(|tb| bind_top(tb, &rj)).collect()).collect();
            polys.push(poly);
            r.push(rj);
        }
        let left: Vec<Fr> = ls.iter().map(|tb| tb[0]).collect();
        let right: Vec<Fr> = rs_.iter().map(|tb| tb[0]).collect();
        for c in 0..nc {
            append_scalar(t, "claim_prod_left", &left[c]);
            append_scalar(t, "claim_prod_right", &right[c]);
        }
        if last {
            for tabs in &dtabs {
                claim_dotp.row.push(tabs[0][0]);
                claim_dotp.col.push(tabs[1][0]);
                claim_dotp.val.push(tabs[2][0]);
                append_scalar(t, "claim_dotp_row", &tabs[0][0]);
                append_scalar(t, "claim_dotp_col", &tabs[1][0]);
                append_scalar(t, "claim_dotp_val", &tabs[2][0]);
            }
        }
        let r_layer = challenge_scalar(t, "challenge_r_layer");
        claims = (0..nc).map(|c| left[c].add(&r_layer.mul(&right[c].sub(&left[c])))).collect();
        layer_proofs.push(LayerProof { polys, claim_prod_left: left, claim_prod_right: right });
        let mut next = vec![r_layer];
        next.extend(r);
        rands = next;
    }
    (ProductCircuitEvalProof { layers_proof: layer_proofs, claim_dotp }, rands)
}

fn mle(table: &[Fr], point: &[Fr]) -> Fr {
    evaluate_value(&table.to_vec(), &point.to_vec())
}

fn prove_snark(a: u64, b: u64) -> (SNARKProof, EncodeCommit) {
    let r1cs = instance();
    let ep = evals_params();
    let mut t = Transcript::new("Spartan SNARK proof");
    let (sat, rx, ry) = prove_r1cs(&mut t, a, b, 6, 11);
    let mats = [&r1cs.a_matrix, &r1cs.b_matrix, &r1cs.c_matrix];
    let ev: Vec<Fr> = mats.iter().map(|m| evaluate_mle(m, &rx, &ry).unwrap()).collect();
    let matrix_evals = MatrixEvals { a: ev[0], b: ev[1], c: ev[2] };
    append_scalar(&mut t, "Ar_claim", &ev[0]);
    append_scalar(&mut t, "Br_claim", &ev[1]);
    append_scalar(&mut t, "Cr_claim", &ev[2]);
    append_text(&mut t, "protocol-name", "sparse polynomial evaluation proof");
    let (rx, ry) = equalize_length(&rx, &ry);
    let (n, m) = (8usize, 1usize << rx.len());
    let (ex, ey) = (eq_vec(&rx), eq_vec(&ry));
    // the sparse encoding, padded with zero entries
    let mut rows: Vec<Vec<usize>> = Vec::new();
    let mut cols: Vec<Vec<usize>> = Vec::new();
    let mut vals: Vec<Vec<Fr>> = Vec::new();
    for mat in mats.iter() {
        let mut rw: Vec<usize> = mat.iter().map(|e| e.row).collect();
        let mut cl: Vec<usize> = mat.iter().map(|e| e.col).collect();
        let mut vl: Vec<Fr> = mat.iter().map(|e| e.val).collect();
        rw.resize(n, 0);
        cl.resize(n, 0);
        vl.resize(n, Fr::zero());
        rows.push(rw);
        cols.push(cl);
        vals.push(vl);
    }
    let row_vals: Vec<Vec<Fr>> = rows.iter().map(|rw| rw.iter().map(|&x| ex[x]).collect()).collect();
    let col_vals: Vec<Vec<Fr>> = cols.iter().map(|cl| cl.iter().map(|&x| ey[x]).collect()).collect();
    let mut derefs_flat: Vec<Fr> = Vec::new();
    for tb in row_vals.iter().chain(col_vals.iter()) {
        derefs_flat.extend(tb.clone());
    }
    derefs_flat.resize(8 * n, Fr::zero());
    let (derefs_commit, derefs_blinds) = commit_rows(&ep.derefs_params, &derefs_flat, 3 + log2(n), 3000);
    append_points(&mut t, "comm_poly_row_col_ops_val", &derefs_commit);
    let gamma = challenge_scalars(&mut t, "challenge_gamma_hash", 2);
    let hash = |addr: usize, v: &Fr, ts: u64| {
        fr(addr as u64).mul(&gamma[0]).mul(&gamma[0]).add(&v.mul(&gamma[0])).add(&fr(ts)).sub(&gamma[1])
    };
    // timestamps: one memory per side, accessed by the three matrices in turn
    let stamps = |addrs: &Vec<Vec<usize>>| {
        let mut audit = vec![0u64; m];
        let mut reads = Vec::new();
        for ad in addrs {
            let mut rd = Vec::new();
            for &x in ad {
                rd.push(audit[x]);
                audit[x] += 1;
            }
            reads.push(rd);
        }
        (reads, audit)
    };
    let (row_ts, row_audit) = stamps(&rows);
    let (col_ts, col_audit) = stamps(&cols);
    let prod = |v: &Vec<Fr>| v.iter().fold(Fr::one(), |s, x| s.mul(x));
    let side = |addrs: &Vec<Vec<usize>>, ts: &Vec<Vec<u64>>, audit: &Vec<u64>, e: &Vec<Fr>| {
        let read: Vec<Vec<Fr>> = (0..3).map(|j| (0..n).map(|k| hash(addrs[j][k], &e[addrs[j][k]], ts[j][k])).collect()).collect();
        let write: Vec<Vec<Fr>> =
            (0..3).map(|j| (0..n).map(|k| hash(addrs[j][k], &e[addrs[j][k]], ts[j][k] + 1)).collect()).collect();
        let init: Vec<Fr> = (0..m).map(|x| hash(x, &e[x], 0)).collect();
        let aud: Vec<Fr> = (0..m).map(|x| hash(x, &e[x], audit[x])).collect();
        (read, write, init, aud)
    };
    let (row_read, row_write, row_init, row_aud) = side(&rows, &row_ts, &row_audit, &ex);
    let (col_read, col_write, col_init, col_aud) = side(&cols, &col_ts, &col_audit, &ey);
    let eval_row = MemoryClaims {
        init: prod(&row_init),
        read: row_read.iter().map(&prod).collect(),
        write: row_write.iter().map(&prod).collect(),
        audit: prod(&row_aud),
    };
    let eval_col = MemoryClaims {
        init: prod(&col_init),
        read: col_read.iter().map(&prod).collect(),
        write: col_write.iter().map(&prod).collect(),
        audit: prod(&col_aud),
    };
    let h = n / 2;
    let half_sum = |j: usize, part: usize| {
        (part * h..(part + 1) * h).fold(Fr::zero(), |s, k| s.add(&row_vals[j][k].mul(&col_vals[j][k]).mul(&vals[j][k])))
    };
    let left: Vec<Fr> = (0..3).map(|j| half_sum(j, 0)).collect();
    let right: Vec<Fr> = (0..3).map(|j| half_sum(j, 1)).collect();
    append_text(&mut t, "protocol-name", "Sparse polynomial product layer proof");
    for (c, side_name) in [(&eval_row, "row"), (&eval_col, "col")] {
        let (li, lr, lw, la) = if side_name == "row" {
            ("claim_row_eval_init", "claim_row_eval_read", "claim_row_eval_write", "claim_row_eval_audit")
        } else {
            ("claim_col_eval_init", "claim_col_eval_read", "claim_col_eval_write", "claim_col_eval_audit")
        };
        append_scalar(&mut t, li, &c.init);
        append_scalars(&mut t, lr, &c.read);
        append_scalars(&mut t, lw, &c.write);
        append_scalar(&mut t, la, &c.audit);
    }
    for j in 0..3 {
        append_scalar(&mut t, "claim_eval_dotp_left", &left[j]);
        append_scalar(&mut t, "claim_eval_dotp_right", &right[j]);
    }
    let mut ops_leaves = Vec::new();
    ops_leaves.extend(row_read.clone());
    ops_leaves.extend(row_write.clone());
    ops_leaves.extend(col_read.clone());
    ops_leaves.extend(col_write.clone());
    let dotp: Vec<Dotp> = (0..3).map(|j| (row_vals[j].clone(), col_vals[j].clone(), vals[j].clone())).collect();
    let (proof_ops, ops_rands) = prove_circuits(&mut t, &ops_leaves, &dotp);
    let (proof_memory, mem_rands) =
        prove_circuits(&mut t, &[row_init.clone(), row_aud.clone(), col_init.clone(), col_aud.clone()], &[]);
    let prod_layer_proof =
        ProductLayerProof { eval_row, eval_col, eval_dotp_left: left, eval_dotp_right: right, proof_memory, proof_ops };
    // hash layer
    append_text(&mut t, "protocol-name", "Sparse polynomial hash layer proof");
    let at_ops = |tb: &Vec<Fr>| mle(tb, &ops_rands);
    let as_fr = |v: &Vec<usize>| v.iter().map(|&x| fr(x as u64)).collect::<Vec<Fr>>();
    let ts_fr = |v: &Vec<u64>| v.iter().map(|&x| fr(x)).collect::<Vec<Fr>>();
    let eval_row_ops_val: Vec<Fr> = row_vals.iter().map(&at_ops).collect();
    let eval_col_ops_val: Vec<Fr> = col_vals.iter().map(&at_ops).collect();
    let evals_row = AddrTsEvals {
        addr_ops: rows.iter().map(|rw| at_ops(&as_fr(rw))).collect(),
        read_ts: row_ts.iter().map(|ts| at_ops(&ts_fr(ts))).collect(),
        audit_ts: mle(&ts_fr(&row_audit), &mem_rands),
    };
    let evals_col = AddrTsEvals {
        addr_ops: cols.iter().map(|cl| at_ops(&as_fr(cl))).collect(),
        read_ts: col_ts.iter().map(|ts| at_ops(&ts_fr(ts))).collect(),
        audit_ts: mle(&ts_fr(&col_audit), &mem_rands),
    };
    let evals_val: Vec<Fr> = vals.iter().map(&at_ops).collect();
    append_text(&mut t, "protocol-name", "Derefs evaluation proof");
    let mut evals8: Vec<Fr> = eval_row_ops_val.iter().chain(eval_col_ops_val.iter()).cloned().collect();
    evals8.resize(8, Fr::zero());
    append_scalars(&mut t, "evals_ops_val", &evals8);
    let cs = challenge_scalars(&mut t, "challenge_combine_n_to_one", 3);
    let joint = combine_evals(&evals8, &cs);
    append_scalar(&mut t, "joint_claim_eval", &joint);
    let mut point: Vec<Fr> = cs.clone();
    point.extend(ops_rands.clone());
    let proof_derefs = prove_opening(&mut t, &ep.derefs_params, &derefs_flat, &point, &derefs_commit, &derefs_blinds);
    // operation polynomials, committed at index time
    let mut ops_tables: Vec<Vec<Fr>> = Vec::new();
    ops_tables.extend(rows.iter().map(&as_fr));
    ops_tables.extend(row_ts.iter().map(&ts_fr));
    ops_tables.extend(cols.iter().map(&as_fr));
    ops_tables.extend(col_ts.iter().map(&ts_fr));
    ops_tables.extend(vals.clone());
    let mut ops_flat: Vec<Fr> = ops_tables.concat();
    ops_flat.resize(16 * n, Fr::zero());
    let (ops_commit, ops_blinds) = commit_rows(&ep.ops_params, &ops_flat, 4 + log2(n), 4000);
    let mut evals16: Vec<Fr> = Vec::new();
    evals16.extend(evals_row.addr_ops.clone());
    evals16.extend(evals_row.read_ts.clone());
    evals16.extend(evals_col.addr_ops.clone());
    evals16.extend(evals_col.read_ts.clone());
    evals16.extend(evals_val.clone());
    evals16.resize(16, Fr::zero());
    append_scalars(&mut t, "claim_evals_ops", &evals16);
    let cs_ops = challenge_scalars(&mut t, "challenge_combine_n_to_one", 4);
    let joint_ops = combine_evals(&evals16, &cs_ops);
    append_scalar(&mut t, "joint_claim_eval_ops", &joint_ops);
    let mut point_ops = cs_ops.clone();
    point_ops.extend(ops_rands.clone());
    let proof_ops = prove_opening(&mut t, &ep.ops_params, &ops_flat, &point_ops, &ops_commit, &ops_blinds);
    // audit timestamps
    let mem_flat: Vec<Fr> = [ts_fr(&row_audit), ts_fr(&col_audit)].concat();
    let (mem_commit, mem_blinds) = commit_rows(&ep.mem_params, &mem_flat, 1 + log2(m), 5000);
    let evals2 = vec![evals_row.audit_ts, evals_col.audit_ts];
    append_scalars(&mut t, "claim_evals_mem", &evals2);
    let cs_mem = challenge_scalars(&mut t, "challenge_combine_two_to_one", 1);
    let joint_mem = combine_evals(&evals2, &cs_mem);
    append_scalar(&mut t, "joint_claim_eval_mem", &joint_mem);
    let mut point_mem = cs_mem.clone();
    point_mem.extend(mem_rands.clone());
    let proof_mem = prove_opening(&mut t, &ep.mem_params, &mem_flat, &point_mem, &mem_commit, &mem_blinds);
    let hash_layer_proof = HashLayerProof {
        eval_row_ops_val,
        eval_col_ops_val,
        evals_row,
        evals_col,
        evals_val,
        proof_derefs,
        proof_ops,
        proof_mem,
    };
    let proof = SNARKProof {
        r1cs_satisfied_proof: sat,
        matrix_evals,
        r1cs_evals_proof: R1CSEvalsProof { derefs_commit, prod_layer_proof, hash_layer_proof },
    };
    (proof, EncodeCommit { n, m, ops_commit, mem_commit })
}

fn spark_params() -> SetupParametersWithSpark {
    SetupParametersWithSpark { r1cs_satisfied_params: params(), r1cs_eval_params: evals_params() }
}

#[test]
fn snark_accepts_satisfying_witness() {
    let (proof, encode) = prove_snark(3, 5);
    assert_eq!(snark_verify(&spark_params(), &instance(), &vec![fr(15)], &proof, &encode), Ok(()));
}

#[test]
fn snark_rejects_other_public_input_and_wrong_evaluations() {
    let (proof, encode) = prove_snark(3, 5);
    assert_eq!(
        snark_verify(&spark_params(), &instance(), &vec![fr(3)], &proof, &encode),
        Err(spartan::SynthesisError::CryptographicCheckFailed)
    );
    let mut bad = proof.clone();
    bad.r1cs_evals_proof.hash_layer_proof.evals_row.audit_ts =
        bad.r1cs_evals_proof.hash_layer_proof.evals_row.audit_ts.add(&Fr::one());
    assert!(snark_verify(&spark_params(), &instance(), &vec![fr(15)], &bad, &encode).is_err());
}
