use spartan::transcript::ProofTranscript as Transcript;
use spartan::commitments::{MultiCommitmentSetupParameters, PolyCommitmentSetupParameters, R1CSEvalsSetupParameters};
use spartan::proofs::{
    AddrTsEvals, DotProductProof, DotpClaims, EncodeCommit, HashLayerProof, InnerProductProof,
    MatrixEvals, MemoryClaims, ProductCircuitEvalProof, ProductLayerProof,
};
use spartan::sparse::{combine_evals, equalize_length, product_layer_verify};
use spartan::{hash_layer_verify, Fr, GroupElem, SynthesisError};

fn fr(x: u64) -> Fr {
    Fr::from_u64(x)
}

fn empty_circuit() -> ProductCircuitEvalProof {
    ProductCircuitEvalProof {
        layers_proof: Vec::new(),
        claim_dotp: DotpClaims { row: Vec::new(), col: Vec::new(), val: Vec::new() },
    }
}

fn memory(init: u64, reads: [u64; 3], writes: [u64; 3], audit: u64) -> MemoryClaims {
    MemoryClaims {
        init: fr(init),
        read: reads.iter().map(|&x| fr(x)).collect(),
        write: writes.iter().map(|&x| fr(x)).collect(),
        audit: fr(audit),
    }
}

fn layer(row: MemoryClaims) -> ProductLayerProof {
    ProductLayerProof {
        eval_row: row,
        // 2 * (1 * 2 * 3) == (2 * 3 * 1) * 2
        eval_col: memory(2, [2, 3, 1], [1, 2, 3], 2),
        eval_dotp_left: vec![fr(1), fr(2), fr(3)],
        eval_dotp_right: vec![fr(9), fr(18), fr(27)],
        proof_memory: empty_circuit(),
        proof_ops: ProductCircuitEvalProof {
            layers_proof: Vec::new(),
            claim_dotp: DotpClaims { row: vec![fr(1); 6], col: vec![fr(1); 6], val: vec![fr(1); 6] },
        },
    }
}

fn evals() -> MatrixEvals {
    MatrixEvals { a: fr(10), b: fr(20), c: fr(30) }
}

#[test]
fn product_layer_checks_memory_identity_and_dotp_split() {
    // 3 * (4 * 5 * 6) == (5 * 6 * 4) * 3
    let ok = layer(memory(3, [5, 6, 4], [4, 5, 6], 3));
    let mut t = Transcript::new("layer");
    let out = product_layer_verify(&ok, 1, 1, &evals(), &mut t).unwrap();
    assert_eq!(out.ops.claims.len(), 12);
    assert_eq!(out.mem.claims.len(), 4);
    assert_eq!(out.ops.claims[0], fr(5));
    assert_eq!(out.mem.claims[1], fr(3));
    let bad = layer(memory(3, [5, 6, 4], [4, 5, 7], 3));
    let mut t = Transcript::new("layer");
    assert_eq!(
        product_layer_verify(&bad, 1, 1, &evals(), &mut t).err(),
        Some(SynthesisError::CryptographicCheckFailed)
    );
    let mut t = Transcript::new("layer");
    let other = MatrixEvals { a: fr(11), b: fr(20), c: fr(30) };
    assert_eq!(
        product_layer_verify(&ok, 1, 1, &other, &mut t).err(),
        Some(SynthesisError::CryptographicCheckFailed)
    );
    let mut short = ok.clone();
    short.eval_dotp_left.pop();
    let mut t = Transcript::new("layer");
    assert_eq!(
        product_layer_verify(&short, 1, 1, &evals(), &mut t).err(),
        Some(SynthesisError::MalformedProof)
    );
}

#[test]
fn combining_evaluations_is_the_multilinear_extension() {
    let e = vec![fr(1), fr(2), fr(3), fr(4)];
    // binding the low variable with 10 gives (11, 13); then the high with 2 gives 15
    assert_eq!(combine_evals(&e, &vec![fr(2), fr(10)]), fr(15));
}

#[test]
fn equalize_pads_the_shorter_point_in_front() {
    let (a, b) = equalize_length(&vec![fr(7)], &vec![fr(1), fr(2), fr(3)]);
    assert_eq!(a, vec![fr(0), fr(0), fr(7)]);
    assert_eq!(b, vec![fr(1), fr(2), fr(3)]);
}

fn dummy_dot() -> DotProductProof {
    let g = GroupElem::zero();
    DotProductProof {
        inner_product_proof: InnerProductProof { l_vec: Vec::new(), r_vec: Vec::new() },
        delta: g,
        beta: g,
        z1: fr(0),
        z2: fr(0),
    }
}

#[test]
fn hash_layer_with_missing_evaluations_is_malformed() {
    let gens = MultiCommitmentSetupParameters::from_seeds(&vec![3], 5);
    let pc = PolyCommitmentSetupParameters { gen_1: gens.clone(), gen_n: gens };
    let params = R1CSEvalsSetupParameters { derefs_params: pc.clone(), ops_params: pc.clone(), mem_params: pc };
    let ts = AddrTsEvals { addr_ops: vec![fr(1); 3], read_ts: vec![fr(1); 3], audit_ts: fr(1) };
    let proof = HashLayerProof {
        eval_row_ops_val: vec![fr(1); 3],
        eval_col_ops_val: vec![fr(1); 2],
        evals_row: ts.clone(),
        evals_col: ts,
        evals_val: vec![fr(1); 3],
        proof_derefs: dummy_dot(),
        proof_ops: dummy_dot(),
        proof_mem: dummy_dot(),
    };
    let claims = memory(1, [1, 1, 1], [1, 1, 1], 1);
    let encode = EncodeCommit { n: 2, m: 2, ops_commit: Vec::new(), mem_commit: Vec::new() };
    let mut t = Transcript::new("hash");
    let r = hash_layer_verify(
        &params, &proof, &vec![fr(1)], &vec![fr(1)], &vec![fr(1)], &vec![fr(1)], &fr(2), &fr(3),
        &claims, &claims, &vec![fr(1); 9], &encode, &Vec::new(), &mut t,
    );
    assert_eq!(r, Err(SynthesisError::MalformedProof));
}
