use crate::field::Fr;
use crate::group::GroupElem;
use crate::poly::MatrixEntry;
use vstd::prelude::*;

verus! {

/// Proof that one round polynomial is consistent with the round's claim
/// and evaluation.
#[derive(Clone, Debug)]
pub struct SumCheckEvalProof {
    pub d_commit: GroupElem,
    pub dot_cd_commit: GroupElem,
    pub z: Vec<Fr>,
    pub z_delta: Fr,
    pub z_beta: Fr,
}

/// A sumcheck over committed round polynomials.
#[derive(Clone, Debug)]
pub struct SumCheckProof {
    pub comm_polys: Vec<GroupElem>,
    pub comm_evals: Vec<GroupElem>,
    pub proofs: Vec<SumCheckEvalProof>,
}

/// Knowledge of the opening of a commitment.
#[derive(Clone, Copy, Debug)]
pub struct KnowledgeProof {
    pub t_commit: GroupElem,
    pub z1: Fr,
    pub z2: Fr,
}

/// That a committed value is the product of two other committed values.
#[derive(Clone, Debug)]
pub struct ProductProof {
    pub commit_alpha: GroupElem,
    pub commit_beta: GroupElem,
    pub commit_delta: GroupElem,
    pub z: Vec<Fr>,
}

/// That two commitments open to the same value.
#[derive(Clone, Copy, Debug)]
pub struct EqProof {
    pub alpha: GroupElem,
    pub z: Fr,
}

/// The recursive halving of an inner-product opening.
#[derive(Clone, Debug)]
pub struct InnerProductProof {
    pub l_vec: Vec<GroupElem>,
    pub r_vec: Vec<GroupElem>,
}

/// Opening of a committed multilinear polynomial at a point.
#[derive(Clone, Debug)]
pub struct DotProductProof {
    pub inner_product_proof: InnerProductProof,
    pub delta: GroupElem,
    pub beta: GroupElem,
    pub z1: Fr,
    pub z2: Fr,
}

/// Commitments to `Az`, `Bz`, `Cz` at the sumcheck point and to `Az * Bz`.
#[derive(Clone, Copy, Debug)]
pub struct KnowledgeProductCommit {
    pub va_commit: GroupElem,
    pub vb_commit: GroupElem,
    pub vc_commit: GroupElem,
    pub prod_commit: GroupElem,
}

#[derive(Clone, Debug)]
pub struct KnowledgeProductProof {
    pub knowledge_proof: KnowledgeProof,
    pub product_proof: ProductProof,
}

/// That a committed witness satisfies an R1CS instance.
#[derive(Clone, Debug)]
pub struct R1CSSatProof {
    pub commit_witness: Vec<GroupElem>,
    pub proof_one: SumCheckProof,
    pub knowledge_product_commit: KnowledgeProductCommit,
    pub knowledge_product_proof: KnowledgeProductProof,
    pub sc1_eq_proof: EqProof,
    pub proof_two: SumCheckProof,
    pub product_proof: DotProductProof,
    pub commit_ry: GroupElem,
    pub sc2_eq_proof: EqProof,
}

#[derive(Clone, Debug)]
pub struct NIZKProof {
    pub r1cs_satisfied_proof: R1CSSatProof,
    pub rx: Vec<Fr>,
    pub ry: Vec<Fr>,
}

/// One layer of a product circuit: a cubic sumcheck and the claimed values
/// of the layer's left and right halves.
#[derive(Clone, Debug)]
pub struct LayerProof {
    pub polys: Vec<Vec<Fr>>,
    pub claim_prod_left: Vec<Fr>,
    pub claim_prod_right: Vec<Fr>,
}

/// Row, column and value claims of the dot-product circuits.
#[derive(Clone, Debug)]
pub struct DotpClaims {
    pub row: Vec<Fr>,
    pub col: Vec<Fr>,
    pub val: Vec<Fr>,
}

#[derive(Clone, Debug)]
pub struct ProductCircuitEvalProof {
    pub layers_proof: Vec<LayerProof>,
    pub claim_dotp: DotpClaims,
}

/// The grand products of one memory: init, per-matrix read and write, audit.
#[derive(Clone, Debug)]
pub struct MemoryClaims {
    pub init: Fr,
    pub read: Vec<Fr>,
    pub write: Vec<Fr>,
    pub audit: Fr,
}

#[derive(Clone, Debug)]
pub struct ProductLayerProof {
    pub eval_row: MemoryClaims,
    pub eval_col: MemoryClaims,
    pub eval_dotp_left: Vec<Fr>,
    pub eval_dotp_right: Vec<Fr>,
    pub proof_memory: ProductCircuitEvalProof,
    pub proof_ops: ProductCircuitEvalProof,
}

/// Evaluations of the address, read-timestamp and audit-timestamp
/// polynomials of one memory.
#[derive(Clone, Debug)]
pub struct AddrTsEvals {
    pub addr_ops: Vec<Fr>,
    pub read_ts: Vec<Fr>,
    pub audit_ts: Fr,
}

#[derive(Clone, Debug)]
pub struct HashLayerProof {
    pub eval_row_ops_val: Vec<Fr>,
    pub eval_col_ops_val: Vec<Fr>,
    pub evals_row: AddrTsEvals,
    pub evals_col: AddrTsEvals,
    pub evals_val: Vec<Fr>,
    pub proof_derefs: DotProductProof,
    pub proof_ops: DotProductProof,
    pub proof_mem: DotProductProof,
}

#[derive(Clone, Debug)]
pub struct R1CSEvalsProof {
    pub derefs_commit: Vec<GroupElem>,
    pub prod_layer_proof: ProductLayerProof,
    pub hash_layer_proof: HashLayerProof,
}

/// The claimed evaluations of `A`, `B` and `C` at the sumcheck point.
#[derive(Clone, Copy, Debug)]
pub struct MatrixEvals {
    pub a: Fr,
    pub b: Fr,
    pub c: Fr,
}

#[derive(Clone, Debug)]
pub struct SNARKProof {
    pub r1cs_satisfied_proof: R1CSSatProof,
    pub matrix_evals: MatrixEvals,
    pub r1cs_evals_proof: R1CSEvalsProof,
}

/// Commitments to the sparse encoding of the constraint matrices.
#[derive(Clone, Debug)]
pub struct EncodeCommit {
    pub n: usize,
    pub m: usize,
    pub ops_commit: Vec<GroupElem>,
    pub mem_commit: Vec<GroupElem>,
}

/// An R1CS instance: `(A z) o (B z) = C z` for `z = (w, 1, inputs)`.
#[derive(Clone, Debug)]
pub struct R1CSInstance {
    pub num_constraints: usize,
    pub num_aux: usize,
    pub num_inputs: usize,
    pub a_matrix: Vec<MatrixEntry>,
    pub b_matrix: Vec<MatrixEntry>,
    pub c_matrix: Vec<MatrixEntry>,
}

} // verus!
