use crate::commitments::{commit_one, commit_value, lemma_pedersen_single, PolyCommitmentSetupParameters, R1CSEvalsSetupParameters};
use crate::errors::SynthesisError;
use crate::field::{fadd, fmul, Fr};
use crate::inner_product::{
    dot_params_ok, dot_shape_ok, fr_views, inner_product_verify, ip_c, ip_pre_c, ip_us, opening_holds,
};
use crate::field::fr_of;
use crate::group::ge_of;
use crate::memory::{behind_verify_for_timestamp, timestamp_holds, timestamp_shape_ok};
use crate::sigma::verdict;
use crate::poly::{bound_poly_var_bot, lerp, prod_upto, product};
use crate::product_circuit::{
    circuit_accepted, circuit_output, circuit_shape_ok, is_pow2, log2_exact, log2_of, pc_coeffss,
    pc_hist, pc_r_layers, pc_rss, product_circuit_eval_verify, shape_check, CircuitClaims,
};
use crate::proofs::ProductCircuitEvalProof;
use crate::proofs::{
    DotProductProof, EncodeCommit, HashLayerProof, MatrixEvals, MemoryClaims, ProductLayerProof,
    R1CSEvalsProof,
};
use crate::codec::le_bytes;
use crate::transcript::{
    absorb_op, append_points, append_scalar, append_scalars, append_text, challenge_scalar_of,
    challenge_scalars, point_ops, scalar_ops, squeeze_op, squeezes, text_hist, History, ProofTranscript,
    CHALLENGE_BYTES,
};
use vstd::string::StringSliceAdditionalSpecFns;
use vstd::prelude::*;

verus! {

/// The number of constraint matrices: `A`, `B` and `C`.
pub const NUM_MATRICES: usize = 3;

/// The grand-product identity of offline memory checking:
/// `init * prod(write) == prod(read) * audit`.
pub open spec fn memory_identity(c: MemoryClaims) -> bool {
    fmul(c.init@, prod_upto(c.write@, c.write@.len())) == fmul(
        prod_upto(c.read@, c.read@.len()),
        c.audit@,
    )
}

/// Whether the claims of one memory hold one read and one write per matrix.
pub open spec fn memory_claims_shape_ok(c: MemoryClaims) -> bool {
    c.read@.len() == NUM_MATRICES && c.write@.len() == NUM_MATRICES
}

/// What the product layer reduces to: what the operation circuit reduces
/// its claims to (row read, row write, column read, column write, one per
/// matrix each, with the dot-product claims), and what the memory circuit
/// reduces its claims to (row init, row audit, column init, column audit).
#[derive(Clone, Debug)]
pub struct ProductLayerClaims {
    pub ops: CircuitClaims,
    pub mem: CircuitClaims,
}

/// The operation circuit's claimed products.
pub open spec fn ops_claims(proof: ProductLayerProof) -> Seq<Fr> {
    proof.eval_row.read@ + proof.eval_row.write@ + proof.eval_col.read@ + proof.eval_col.write@
}

/// The dot-product claims: left and right half of each matrix in turn.
pub open spec fn dotp_claims(proof: ProductLayerProof) -> Seq<Fr> {
    let l = proof.eval_dotp_left@;
    let r = proof.eval_dotp_right@;
    seq![l[0], r[0], l[1], r[1], l[2], r[2]]
}

/// The memory circuit's claimed products.
pub open spec fn mem_claims(proof: ProductLayerProof) -> Seq<Fr> {
    seq![proof.eval_row.init, proof.eval_row.audit, proof.eval_col.init, proof.eval_col.audit]
}

/// Whether the product layer's lists hold one entry per matrix.
pub open spec fn layer_lists_ok(proof: ProductLayerProof) -> bool {
    &&& memory_claims_shape_ok(proof.eval_row)
    &&& memory_claims_shape_ok(proof.eval_col)
    &&& proof.eval_dotp_left@.len() == NUM_MATRICES
    &&& proof.eval_dotp_right@.len() == NUM_MATRICES
}

/// Whether the two circuits have the shape for `n` operations and `m` cells.
pub open spec fn layer_circuits_ok(proof: ProductLayerProof, n: nat, m: nat) -> bool {
    &&& circuit_shape_ok(proof.proof_ops, 4 * NUM_MATRICES as nat, 2 * NUM_MATRICES as nat, log2_of(n))
    &&& circuit_shape_ok(proof.proof_memory, 4, 0, log2_of(m))
}

/// The checks made before any challenge: the memory identities and the
/// split of each matrix evaluation.
pub open spec fn layer_identities_hold(proof: ProductLayerProof, evals: MatrixEvals) -> bool {
    &&& memory_identity(proof.eval_row)
    &&& memory_identity(proof.eval_col)
    &&& fadd(proof.eval_dotp_left@[0]@, proof.eval_dotp_right@[0]@) == evals.a@
    &&& fadd(proof.eval_dotp_left@[1]@, proof.eval_dotp_right@[1]@) == evals.b@
    &&& fadd(proof.eval_dotp_left@[2]@, proof.eval_dotp_right@[2]@) == evals.c@
}

/// A product circuit over `2^layers` leaves was accepted from `claims_prod`
/// and `claims_dotp`, and reduced to `out`.
pub open spec fn circuit_reduces_to(
    proof: ProductCircuitEvalProof,
    claims_prod: Seq<Fr>,
    claims_dotp: Seq<Fr>,
    layers: nat,
    out: CircuitClaims,
) -> bool {
    exists|coeffss: Seq<Seq<Fr>>, rss: Seq<Seq<Fr>>, r_layers: Seq<Fr>|
        #[trigger] circuit_accepted(proof, claims_prod, claims_dotp, layers, coeffss, rss, r_layers)
            && circuit_output(out, proof, claims_prod, layers, rss, r_layers)
}

/// The absorbs of one memory's claims (`row` for the row memory).
pub open spec fn mem_claim_ops(c: MemoryClaims, row: bool) -> History {
    if row {
        seq![absorb_op("claim_row_eval_init"@, le_bytes(c.init@, 8))] + scalar_ops(
            "claim_row_eval_read"@,
            c.read@,
        ) + scalar_ops("claim_row_eval_write"@, c.write@) + seq![
            absorb_op("claim_row_eval_audit"@, le_bytes(c.audit@, 8)),
        ]
    } else {
        seq![absorb_op("claim_col_eval_init"@, le_bytes(c.init@, 8))] + scalar_ops(
            "claim_col_eval_read"@,
            c.read@,
        ) + scalar_ops("claim_col_eval_write"@, c.write@) + seq![
            absorb_op("claim_col_eval_audit"@, le_bytes(c.audit@, 8)),
        ]
    }
}

/// The absorbs of the split matrix evaluations, left and right in turn.
pub open spec fn split_ops(left: Seq<Fr>, right: Seq<Fr>) -> History {
    Seq::new(
        2 * left.len(),
        |k: int|
            if k % 2 == 0 {
                absorb_op("claim_eval_dotp_left"@, le_bytes(left[k / 2]@, 8))
            } else {
                absorb_op("claim_eval_dotp_right"@, le_bytes(right[k / 2]@, 8))
            },
    )
}

/// The record at the start of the operation circuit.
pub open spec fn pl_pre_ops(h: History, proof: ProductLayerProof) -> History {
    text_hist(h, "protocol-name"@, "Sparse polynomial product layer proof".spec_bytes()) + mem_claim_ops(
        proof.eval_row,
        true,
    ) + mem_claim_ops(proof.eval_col, false) + split_ops(proof.eval_dotp_left@, proof.eval_dotp_right@)
}

/// The record at the start of the memory circuit.
pub open spec fn pl_pre_mem(h: History, proof: ProductLayerProof, n: nat) -> History {
    let l = log2_of(n);
    pc_hist(pl_pre_ops(h, proof), proof.proof_ops, 4 * NUM_MATRICES as nat, 2 * NUM_MATRICES as nat, l, l)
}

/// The record after the product layer.
pub open spec fn pl_post(h: History, proof: ProductLayerProof, n: nat, m: nat) -> History {
    let l = log2_of(m);
    pc_hist(pl_pre_mem(h, proof, n), proof.proof_memory, 4, 0, l, l)
}

/// The operation circuit holds at the transcript's challenges.
pub open spec fn pl_ops_ok(h: History, proof: ProductLayerProof, n: nat) -> bool {
    let l = log2_of(n);
    let hh = pl_pre_ops(h, proof);
    let (nc, nd) = (4 * NUM_MATRICES as nat, 2 * NUM_MATRICES as nat);
    circuit_accepted(
        proof.proof_ops,
        ops_claims(proof),
        dotp_claims(proof),
        l,
        pc_coeffss(hh, proof.proof_ops, nc, nd, l),
        pc_rss(hh, proof.proof_ops, nc, nd, l),
        pc_r_layers(hh, proof.proof_ops, nc, nd, l),
    )
}

/// The memory circuit holds at the transcript's challenges.
pub open spec fn pl_mem_ok(h: History, proof: ProductLayerProof, n: nat, m: nat) -> bool {
    let l = log2_of(m);
    let hh = pl_pre_mem(h, proof, n);
    circuit_accepted(
        proof.proof_memory,
        mem_claims(proof),
        Seq::empty(),
        l,
        pc_coeffss(hh, proof.proof_memory, 4, 0, l),
        pc_rss(hh, proof.proof_memory, 4, 0, l),
        pc_r_layers(hh, proof.proof_memory, 4, 0, l),
    )
}

/// What the operation circuit reduces to at the transcript's challenges.
pub open spec fn pl_ops_out(h: History, proof: ProductLayerProof, n: nat, out: CircuitClaims) -> bool {
    let l = log2_of(n);
    let hh = pl_pre_ops(h, proof);
    let (nc, nd) = (4 * NUM_MATRICES as nat, 2 * NUM_MATRICES as nat);
    circuit_output(
        out,
        proof.proof_ops,
        ops_claims(proof),
        l,
        pc_rss(hh, proof.proof_ops, nc, nd, l),
        pc_r_layers(hh, proof.proof_ops, nc, nd, l),
    )
}

/// What the memory circuit reduces to at the transcript's challenges.
pub open spec fn pl_mem_out(h: History, proof: ProductLayerProof, n: nat, m: nat, out: CircuitClaims) -> bool {
    let l = log2_of(m);
    let hh = pl_pre_mem(h, proof, n);
    circuit_output(
        out,
        proof.proof_memory,
        mem_claims(proof),
        l,
        pc_rss(hh, proof.proof_memory, 4, 0, l),
        pc_r_layers(hh, proof.proof_memory, 4, 0, l),
    )
}

fn check_memory(c: &MemoryClaims) -> (r: bool)
    ensures
        r == memory_identity(*c),
{
    let read = product(&c.read);
    let write = product(&c.write);
    c.init.mul(&write).equals(&read.mul(&c.audit))
}

fn append_memory_claims(t: &mut ProofTranscript, c: &MemoryClaims, row: bool)
    ensures
        final(t).history() == old(t).history() + mem_claim_ops(*c, row),
{
    if row {
        append_scalar(t, "claim_row_eval_init", &c.init);
        append_scalars(t, "claim_row_eval_read", &c.read);
        append_scalars(t, "claim_row_eval_write", &c.write);
        append_scalar(t, "claim_row_eval_audit", &c.audit);
        assert(t.history() =~= old(t).history() + mem_claim_ops(*c, row));
    } else {
        append_scalar(t, "claim_col_eval_init", &c.init);
        append_scalars(t, "claim_col_eval_read", &c.read);
        append_scalars(t, "claim_col_eval_write", &c.write);
        append_scalar(t, "claim_col_eval_audit", &c.audit);
        assert(t.history() =~= old(t).history() + mem_claim_ops(*c, row));
    }
}

fn push_all(dst: &mut Vec<Fr>, src: &Vec<Fr>)
    ensures
        final(dst)@ == old(dst)@ + src@,
{
    let mut i: usize = 0;
    while i < src.len()
        invariant
            i <= src@.len(),
            dst@ == old(dst)@ + src@.subrange(0, i as int),
        decreases src@.len() - i,
    {
        dst.push(src[i]);
        i = i + 1;
        assert(dst@ =~= old(dst)@ + src@.subrange(0, i as int));
    }
    assert(src@.subrange(0, i as int) =~= src@);
}

/// Verifies the product layer of the sparse evaluation proof: the memory
/// identities of rows and columns, the split of each matrix evaluation
/// into two dot-product claims, and the two product circuits (operations
/// over `n` entries, memory over `m` cells).
pub fn product_layer_verify(
    proof: &ProductLayerProof,
    n: usize,
    m: usize,
    evals: &MatrixEvals,
    transcript: &mut ProofTranscript,
) -> (res: Result<ProductLayerClaims, SynthesisError>)
    ensures
        !layer_lists_ok(*proof) ==> res == Err::<ProductLayerClaims, _>(SynthesisError::MalformedProof),
        layer_lists_ok(*proof) && !(is_pow2(n as nat) && is_pow2(m as nat)) ==> res == Err::<
            ProductLayerClaims,
            _,
        >(SynthesisError::ParameterMismatch),
        layer_lists_ok(*proof) && is_pow2(n as nat) && is_pow2(m as nat) && !layer_circuits_ok(
            *proof,
            n as nat,
            m as nat,
        ) ==> res == Err::<ProductLayerClaims, _>(SynthesisError::MalformedProof),
        res == Err::<ProductLayerClaims, _>(SynthesisError::MalformedProof) ==> !(layer_lists_ok(
            *proof,
        ) && layer_circuits_ok(*proof, n as nat, m as nat)),
        layer_lists_ok(*proof) && is_pow2(n as nat) && is_pow2(m as nat) && layer_circuits_ok(
            *proof,
            n as nat,
            m as nat,
        ) && !layer_identities_hold(*proof, *evals) ==> res == Err::<ProductLayerClaims, _>(
            SynthesisError::CryptographicCheckFailed,
        ),
        res is Err ==> res->Err_0 != SynthesisError::MissingAssignment,
        res is Ok ==> {
            let out = res->Ok_0;
            &&& layer_identities_hold(*proof, *evals)
            &&& out.ops.claims@.len() == 4 * NUM_MATRICES
            &&& out.mem.claims@.len() == 4
            &&& out.ops.rands@.len() == log2_of(n as nat)
            &&& out.mem.rands@.len() == log2_of(m as nat)
            &&& circuit_reduces_to(
                proof.proof_ops,
                ops_claims(*proof),
                dotp_claims(*proof),
                log2_of(n as nat),
                out.ops,
            )
            &&& circuit_reduces_to(proof.proof_memory, mem_claims(*proof), Seq::empty(), log2_of(m as nat), out.mem)
        },
        layer_lists_ok(*proof) && is_pow2(n as nat) && is_pow2(m as nat) && layer_circuits_ok(
            *proof,
            n as nat,
            m as nat,
        ) ==> {
            let h = old(transcript).history();
            &&& (res is Ok <==> (layer_identities_hold(*proof, *evals) && pl_ops_ok(h, *proof, n as nat)
                && pl_mem_ok(h, *proof, n as nat, m as nat)))
            &&& res is Err ==> res->Err_0 == SynthesisError::CryptographicCheckFailed
            &&& res is Ok ==> pl_ops_out(h, *proof, n as nat, res->Ok_0.ops) && pl_mem_out(
                h,
                *proof,
                n as nat,
                m as nat,
                res->Ok_0.mem,
            ) && final(transcript).history() == pl_post(h, *proof, n as nat, m as nat)
        },
{
    let ghost h0 = transcript.history();
    append_text(transcript, "protocol-name", "Sparse polynomial product layer proof");
    let row = &proof.eval_row;
    let col = &proof.eval_col;
    let left = &proof.eval_dotp_left;
    let right = &proof.eval_dotp_right;
    if row.read.len() != NUM_MATRICES || row.write.len() != NUM_MATRICES || col.read.len()
        != NUM_MATRICES || col.write.len() != NUM_MATRICES || left.len() != NUM_MATRICES
        || right.len() != NUM_MATRICES {
        return Err(SynthesisError::MalformedProof);
    }
    let ops_layers = match log2_exact(n) {
        Some(k) => k,
        None => {
            return Err(SynthesisError::ParameterMismatch);
        },
    };
    let mem_layers = match log2_exact(m) {
        Some(k) => k,
        None => {
            return Err(SynthesisError::ParameterMismatch);
        },
    };
    if !shape_check(&proof.proof_ops, 4 * NUM_MATRICES, 2 * NUM_MATRICES, ops_layers)
        || !shape_check(&proof.proof_memory, 4, 0, mem_layers) {
        return Err(SynthesisError::MalformedProof);
    }
    if !check_memory(row) {
        return Err(SynthesisError::CryptographicCheckFailed);
    }
    let ghost ht = transcript.history();
    append_memory_claims(transcript, row, true);
    if !check_memory(col) {
        return Err(SynthesisError::CryptographicCheckFailed);
    }
    append_memory_claims(transcript, col, false);
    let ghost hs = transcript.history();
    let ev = [evals.a, evals.b, evals.c];

    let mut claims_dotp: Vec<Fr> = Vec::new();
    let mut i: usize = 0;
    while i < NUM_MATRICES
        invariant
            i <= NUM_MATRICES,
            left@.len() == NUM_MATRICES,
            right@.len() == NUM_MATRICES,
            *left == proof.eval_dotp_left,
            *right == proof.eval_dotp_right,
            ev@ == seq![evals.a, evals.b, evals.c],
            memory_claims_shape_ok(proof.eval_row),
            memory_claims_shape_ok(proof.eval_col),
            memory_identity(proof.eval_row),
            memory_identity(proof.eval_col),
            layer_circuits_ok(*proof, n as nat, m as nat),
            is_pow2(n as nat) && is_pow2(m as nat),
            claims_dotp@.len() == 2 * i,
            transcript.history() == hs + split_ops(left@.subrange(0, i as int), right@.subrange(0, i as int)),
            forall|k: int| 0 <= k < 2 * i ==> #[trigger] claims_dotp@[k] == (if k % 2 == 0 {
                left@[k / 2]
            } else {
                right@[k / 2]
            }),
            forall|k: int| 0 <= k < i ==> fadd(left@[k]@, right@[k]@) == (#[trigger] ev@[k])@,
        decreases NUM_MATRICES - i,
    {
        if !left[i].add(&right[i]).equals(&ev[i]) {
            return Err(SynthesisError::CryptographicCheckFailed);
        }
        append_scalar(transcript, "claim_eval_dotp_left", &left[i]);
        append_scalar(transcript, "claim_eval_dotp_right", &right[i]);
        claims_dotp.push(left[i]);
        claims_dotp.push(right[i]);
        i = i + 1;
        assert(transcript.history() =~= hs + split_ops(left@.subrange(0, i as int), right@.subrange(0, i as int)));
    }
    assert(left@.subrange(0, i as int) =~= left@);
    assert(right@.subrange(0, i as int) =~= right@);
    assert(transcript.history() == pl_pre_ops(h0, *proof));
    assert(claims_dotp@ =~= dotp_claims(*proof));
    assert(ev@[0] == evals.a && ev@[1] == evals.b && ev@[2] == evals.c);
    let mut claims_prod: Vec<Fr> = Vec::new();
    push_all(&mut claims_prod, &row.read);
    push_all(&mut claims_prod, &row.write);
    push_all(&mut claims_prod, &col.read);
    push_all(&mut claims_prod, &col.write);
    assert(claims_prod@ =~= ops_claims(*proof));
    let ops = product_circuit_eval_verify(&proof.proof_ops, &claims_prod, &claims_dotp, n, transcript);
    let ops = match ops {
        Ok(o) => o,
        Err(_) => {
            return Err(SynthesisError::CryptographicCheckFailed);
        },
    };
    let mem_list = vec![row.init, row.audit, col.init, col.audit];
    let empty: Vec<Fr> = Vec::new();
    assert(mem_list@ =~= mem_claims(*proof));
    assert(empty@ =~= Seq::<Fr>::empty());
    let mem = match product_circuit_eval_verify(&proof.proof_memory, &mem_list, &empty, m, transcript) {
        Ok(o) => o,
        Err(_) => {
            return Err(SynthesisError::CryptographicCheckFailed);
        },
    };
    Ok(ProductLayerClaims { ops, mem })
}

} // verus!

verus! {

/// Fixes the lowest variable of a table of evaluations to `r`.
pub open spec fn fold_lerp(e: Seq<nat>, r: nat) -> Seq<nat> {
    Seq::new(e.len() / 2, |i: int| lerp(e[2 * i], e[2 * i + 1], r))
}

/// Fixes the variables of a table from the lowest up to `cs.last()`, ...,
/// `cs[0]`: the multilinear extension of the table at `cs`.
pub open spec fn bind_all(e: Seq<nat>, cs: Seq<Fr>) -> Seq<nat>
    decreases cs.len(),
{
    if cs.len() == 0 {
        e
    } else {
        bind_all(fold_lerp(e, cs.last()@), cs.drop_last())
    }
}

/// Combines a table of `2^|cs|` evaluations into one, at the point `cs`.
pub fn combine_evals(evals: &Vec<Fr>, cs: &Vec<Fr>) -> (v: Fr)
    requires
        evals@.len() == crate::poly::two_pow(cs@.len()),
    ensures
        bind_all(fr_views(evals@), cs@).len() == 1,
        v@ == bind_all(fr_views(evals@), cs@)[0],
{
    let mut poly = evals.clone();
    let mut i: usize = cs.len();
    proof {
        assert(cs@.subrange(0, i as int) =~= cs@);
        assert(poly@ == evals@);
    }
    while i > 0
        invariant
            i <= cs@.len(),
            poly@.len() == crate::poly::two_pow(i as nat),
            bind_all(fr_views(poly@), cs@.subrange(0, i as int)) == bind_all(fr_views(evals@), cs@),
        decreases i,
    {
        let next = bound_poly_var_bot(&poly, &cs[i - 1]);
        proof {
            let sub = cs@.subrange(0, i as int);
            assert(sub.drop_last() =~= cs@.subrange(0, i - 1));
            assert(fr_views(next@) =~= fold_lerp(fr_views(poly@), cs@[i - 1]@));
        }
        poly = next;
        i = i - 1;
    }
    proof {
        assert(cs@.subrange(0, 0) =~= Seq::<Fr>::empty());
        assert(bind_all(fr_views(poly@), Seq::<Fr>::empty()) == fr_views(poly@));
    }
    poly[0]
}

/// Each dot-product claim matches the evaluation it stands for: row,
/// column and value for each matrix in turn.
pub open spec fn dotp_claims_match(
    claims_dotp: Seq<Fr>,
    row_ops_val: Seq<Fr>,
    col_ops_val: Seq<Fr>,
    evals_val: Seq<Fr>,
) -> bool {
    forall|i: int|
        0 <= i < NUM_MATRICES ==> {
            &&& (#[trigger] claims_dotp[3 * i])@ == row_ops_val[i]@
            &&& claims_dotp[3 * i + 1]@ == col_ops_val[i]@
            &&& claims_dotp[3 * i + 2]@ == evals_val[i]@
        }
}

/// Whether the evaluations in a hash-layer proof hold one entry per matrix.
pub open spec fn hash_layer_shape_ok(proof: HashLayerProof, claims_dotp: Seq<Fr>) -> bool {
    &&& claims_dotp.len() == 3 * NUM_MATRICES
    &&& proof.eval_row_ops_val@.len() == NUM_MATRICES
    &&& proof.eval_col_ops_val@.len() == NUM_MATRICES
    &&& proof.evals_val@.len() == NUM_MATRICES
    &&& proof.evals_row.addr_ops@.len() == NUM_MATRICES
    &&& proof.evals_row.read_ts@.len() == NUM_MATRICES
    &&& proof.evals_col.addr_ops@.len() == NUM_MATRICES
    &&& proof.evals_col.read_ts@.len() == NUM_MATRICES
}

fn pad_to(v: &mut Vec<Fr>, n: usize)
    requires
        old(v)@.len() <= n,
    ensures
        final(v)@.len() == n,
        fr_views(final(v)@) == padded_views(old(v)@, n as nat),
{
    let ghost orig = v@;
    while v.len() < n
        invariant
            orig.len() <= v@.len() <= n,
            v@.subrange(0, orig.len() as int) == orig,
            forall|i: int| orig.len() <= i < v@.len() ==> (#[trigger] v@[i])@ == 0,
        decreases n - v@.len(),
    {
        v.push(Fr::zero());
        assert(v@.subrange(0, orig.len() as int) =~= orig);
    }
    assert forall|i: int| 0 <= i < n implies fr_views(v@)[i] == padded_views(orig, n as nat)[i] by {
        if i < orig.len() {
            assert(v@[i] == v@.subrange(0, orig.len() as int)[i]);
        }
    }
    assert(fr_views(v@) =~= padded_views(orig, n as nat));
}

/// The dereferenced values: rows, then columns, one per matrix.
pub open spec fn derefs_table(proof: HashLayerProof) -> Seq<Fr> {
    proof.eval_row_ops_val@ + proof.eval_col_ops_val@
}

/// The operation evaluations: row addresses and read timestamps, column
/// addresses and read timestamps, then values, one per matrix each.
pub open spec fn ops_table(proof: HashLayerProof) -> Seq<Fr> {
    proof.evals_row.addr_ops@ + proof.evals_row.read_ts@ + proof.evals_col.addr_ops@
        + proof.evals_col.read_ts@ + proof.evals_val@
}

/// The values of `s` followed by zeros, `n` in all.
pub open spec fn padded_views(s: Seq<Fr>, n: nat) -> Seq<nat> {
    Seq::new(n, |i: int| if i < s.len() { s[i]@ } else { 0 })
}

/// An opening of the joint polynomial of a table of evaluations was
/// accepted: for some combining point `cs` of dimension `k`, the commitments
/// open at `cs` followed by `tail` to the evaluations combined at `cs`.
pub open spec fn joint_opening_accepted(
    params: PolyCommitmentSetupParameters,
    evals: Seq<nat>,
    k: nat,
    tail: Seq<Fr>,
    commits: Seq<crate::group::GroupElem>,
    proof: DotProductProof,
) -> bool {
    exists|cs: Seq<Fr>, us: Seq<Fr>, c: Fr, g: crate::group::GroupElem|
        cs.len() == k && g@ == commit_value(
            params.gen_1.generators@,
            params.gen_1.h,
            bind_all(evals, cs)[0],
            0,
        ) && #[trigger] opening_holds(params, cs + tail, commits, g, proof, us, c)
}

/// Verifies the hash layer of the sparse evaluation proof: the openings of
/// the dereferenced values, of the operation polynomials and of the audit
/// timestamps, that the dot-product claims are those evaluations, and the
/// hash identities of rows (at `rx`) and columns (at `ry`).
pub fn hash_layer_verify(
    params: &R1CSEvalsSetupParameters,
    proof: &HashLayerProof,
    rx: &Vec<Fr>,
    ry: &Vec<Fr>,
    ops_rands: &Vec<Fr>,
    mem_rands: &Vec<Fr>,
    gamma1: &Fr,
    gamma2: &Fr,
    claims_row: &MemoryClaims,
    claims_col: &MemoryClaims,
    claims_dotp: &Vec<Fr>,
    encode_commit: &EncodeCommit,
    derefs_commit: &Vec<crate::group::GroupElem>,
    transcript: &mut ProofTranscript,
) -> (res: Result<(), SynthesisError>)
    ensures
        !hash_layer_shape_ok(*proof, claims_dotp@) ==> res == Err::<(), _>(
            SynthesisError::MalformedProof,
        ),
        res is Err ==> res->Err_0 != SynthesisError::MissingAssignment,
        res is Ok ==> hash_layer_accepted(
            old(transcript).history(),
            *params,
            *proof,
            rx@,
            ry@,
            ops_rands@,
            mem_rands@,
            *gamma1,
            *gamma2,
            *claims_row,
            *claims_col,
            claims_dotp@,
            *encode_commit,
            derefs_commit@,
        ) && final(transcript).history() == hl_post(
            old(transcript).history(),
            *params,
            *proof,
            ops_rands@,
            mem_rands@,
            *encode_commit,
            derefs_commit@,
        ),
        hl_shapes_ok(
            *params,
            *proof,
            claims_dotp@,
            ops_rands@.len(),
            mem_rands@.len(),
            *encode_commit,
            derefs_commit@.len(),
        ) ==> (res is Ok <==> hash_layer_accepted(
            old(transcript).history(),
            *params,
            *proof,
            rx@,
            ry@,
            ops_rands@,
            mem_rands@,
            *gamma1,
            *gamma2,
            *claims_row,
            *claims_col,
            claims_dotp@,
            *encode_commit,
            derefs_commit@,
        )),
{
    let ghost h0 = transcript.history();
    append_text(transcript, "protocol-name", "Sparse polynomial hash layer proof");
    if claims_dotp.len() != 3 * NUM_MATRICES || proof.eval_row_ops_val.len() != NUM_MATRICES
        || proof.eval_col_ops_val.len() != NUM_MATRICES || proof.evals_val.len() != NUM_MATRICES
        || proof.evals_row.addr_ops.len() != NUM_MATRICES || proof.evals_row.read_ts.len()
        != NUM_MATRICES || proof.evals_col.addr_ops.len() != NUM_MATRICES
        || proof.evals_col.read_ts.len() != NUM_MATRICES {
        return Err(SynthesisError::MalformedProof);
    }
    // dereferenced values
    let mut evals: Vec<Fr> = Vec::new();
    push_all(&mut evals, &proof.eval_row_ops_val);
    push_all(&mut evals, &proof.eval_col_ops_val);
    assert(evals@ =~= derefs_table(*proof));
    pad_to(&mut evals, 8);
    append_text(transcript, "protocol-name", "Derefs evaluation proof");
    assert(transcript.history() == hl_derefs_start(h0));
    assert(crate::poly::two_pow(3) == 8) by {
        reveal_with_fuel(crate::poly::two_pow, 4);
    }
    let dres = joint_opening_verify(
        &params.derefs_params,
        &evals,
        3,
        "evals_ops_val",
        "challenge_combine_n_to_one",
        "joint_claim_eval",
        ops_rands,
        derefs_commit,
        &proof.proof_derefs,
        transcript,
    );
    if dres.is_err() {
        return Err(dres.unwrap_err());
    }
    let mut i: usize = 0;
    while i < NUM_MATRICES
        invariant
            i <= NUM_MATRICES,
            hash_layer_shape_ok(*proof, claims_dotp@),
            forall|k: int|
                0 <= k < i ==> {
                    &&& (#[trigger] claims_dotp@[3 * k])@ == proof.eval_row_ops_val@[k]@
                    &&& claims_dotp@[3 * k + 1]@ == proof.eval_col_ops_val@[k]@
                    &&& claims_dotp@[3 * k + 2]@ == proof.evals_val@[k]@
                },
        decreases NUM_MATRICES - i,
    {
        if !claims_dotp[3 * i].equals(&proof.eval_row_ops_val[i]) || !claims_dotp[3 * i
            + 1].equals(&proof.eval_col_ops_val[i]) || !claims_dotp[3 * i + 2].equals(
            &proof.evals_val[i],
        ) {
            return Err(SynthesisError::CryptographicCheckFailed);
        }
        i = i + 1;
    }
    // operation polynomials
    let mut evals_ops: Vec<Fr> = Vec::new();
    push_all(&mut evals_ops, &proof.evals_row.addr_ops);
    push_all(&mut evals_ops, &proof.evals_row.read_ts);
    push_all(&mut evals_ops, &proof.evals_col.addr_ops);
    push_all(&mut evals_ops, &proof.evals_col.read_ts);
    push_all(&mut evals_ops, &proof.evals_val);
    assert(evals_ops@ =~= ops_table(*proof));
    pad_to(&mut evals_ops, 16);
    assert(crate::poly::two_pow(4) == 16) by {
        reveal_with_fuel(crate::poly::two_pow, 5);
    }
    let ores = joint_opening_verify(
        &params.ops_params,
        &evals_ops,
        4,
        "claim_evals_ops",
        "challenge_combine_n_to_one",
        "joint_claim_eval_ops",
        ops_rands,
        &encode_commit.ops_commit,
        &proof.proof_ops,
        transcript,
    );
    if ores.is_err() {
        return Err(ores.unwrap_err());
    }
    // audit timestamps
    let evals_mem = vec![proof.evals_row.audit_ts, proof.evals_col.audit_ts];
    assert(fr_views(evals_mem@) =~= padded_views(seq![proof.evals_row.audit_ts, proof.evals_col.audit_ts], 2));
    assert(crate::poly::two_pow(1) == 2) by {
        reveal_with_fuel(crate::poly::two_pow, 2);
    }
    let mres = joint_opening_verify(
        &params.mem_params,
        &evals_mem,
        1,
        "claim_evals_mem",
        "challenge_combine_two_to_one",
        "joint_claim_eval_mem",
        mem_rands,
        &encode_commit.mem_commit,
        &proof.proof_mem,
        transcript,
    );
    if mres.is_err() {
        return Err(mres.unwrap_err());
    }
    behind_verify_for_timestamp(
        mem_rands,
        claims_row,
        rx,
        &proof.eval_row_ops_val,
        &proof.evals_row.addr_ops,
        &proof.evals_row.read_ts,
        &proof.evals_row.audit_ts,
        gamma1,
        gamma2,
    )?;
    behind_verify_for_timestamp(
        mem_rands,
        claims_col,
        ry,
        &proof.eval_col_ops_val,
        &proof.evals_col.addr_ops,
        &proof.evals_col.read_ts,
        &proof.evals_col.audit_ts,
        gamma1,
        gamma2,
    )?;
    Ok(())
}

} // verus!

verus! {

/// Pads the shorter of two points with leading zeros to the length of the
/// longer.
pub fn equalize_length(rx: &Vec<Fr>, ry: &Vec<Fr>) -> (r: (Vec<Fr>, Vec<Fr>))
    ensures
        r.0@.len() == r.1@.len(),
        r.0@.len() == if rx@.len() >= ry@.len() { rx@.len() } else { ry@.len() },
        r.0@.subrange(r.0@.len() - rx@.len(), r.0@.len() as int) == rx@,
        r.1@.subrange(r.1@.len() - ry@.len(), r.1@.len() as int) == ry@,
        forall|i: int| 0 <= i < r.0@.len() - rx@.len() ==> (#[trigger] r.0@[i])@ == 0,
        forall|i: int| 0 <= i < r.1@.len() - ry@.len() ==> (#[trigger] r.1@[i])@ == 0,
{
    let n = if rx.len() >= ry.len() { rx.len() } else { ry.len() };
    (pad_front(rx, n), pad_front(ry, n))
}

fn pad_front(v: &Vec<Fr>, n: usize) -> (r: Vec<Fr>)
    requires
        v@.len() <= n,
    ensures
        r@.len() == n,
        r@.subrange(n - v@.len(), n as int) == v@,
        forall|i: int| 0 <= i < n - v@.len() ==> (#[trigger] r@[i])@ == 0,
{
    let mut r: Vec<Fr> = Vec::new();
    let k = n - v.len();
    while r.len() < k
        invariant
            r@.len() <= k,
            forall|i: int| 0 <= i < r@.len() ==> (#[trigger] r@[i])@ == 0,
        decreases k - r@.len(),
    {
        r.push(Fr::zero());
    }
    push_all(&mut r, v);
    assert(r@.subrange(k as int, n as int) =~= v@);
    r
}

/// `rxe` and `rye` are `rx` and `ry` padded in front with zeros to a common
/// length.
pub open spec fn equalized(rx: Seq<Fr>, ry: Seq<Fr>, rxe: Seq<Fr>, rye: Seq<Fr>) -> bool {
    let w = if rx.len() >= ry.len() { rx.len() } else { ry.len() };
    &&& rxe.len() == w
    &&& rye.len() == w
    &&& rxe.subrange(w - rx.len(), w as int) == rx
    &&& rye.subrange(w - ry.len(), w as int) == ry
    &&& forall|i: int| 0 <= i < w - rx.len() ==> (#[trigger] rxe[i])@ == 0
    &&& forall|i: int| 0 <= i < w - ry.len() ==> (#[trigger] rye[i])@ == 0
}

/// The claims of one memory (`side` 0 for rows, 1 for columns) as the two
/// circuits reduced them.
pub open spec fn side_claims(c: MemoryClaims, out: ProductLayerClaims, side: int) -> bool {
    let ops = out.ops.claims@;
    let mem = out.mem.claims@;
    let k = 6 * side;
    &&& c.init == mem[2 * side]
    &&& c.read@ == ops.subrange(k, k + 3)
    &&& c.write@ == ops.subrange(k + 3, k + 6)
    &&& c.audit == mem[2 * side + 1]
}

/// The record at the start of the product layer of a sparse evaluation
/// started at record `h`.
pub open spec fn sp_pre_layer(h: History, proof: R1CSEvalsProof) -> History {
    (text_hist(h, "protocol-name"@, "sparse polynomial evaluation proof".spec_bytes()) + point_ops(
        "comm_poly_row_col_ops_val"@,
        proof.derefs_commit@,
    )) + squeezes("challenge_gamma_hash"@, 2)
}

/// The hash challenges `g1` (`i` = 0) and `g2` (`i` = 1).
pub open spec fn sp_gamma(h: History, proof: R1CSEvalsProof, i: nat) -> Fr {
    let h2 = text_hist(h, "protocol-name"@, "sparse polynomial evaluation proof".spec_bytes()) + point_ops(
        "comm_poly_row_col_ops_val"@,
        proof.derefs_commit@,
    );
    fr_of(challenge_scalar_of(h2 + squeezes("challenge_gamma_hash"@, i), "challenge_gamma_hash"@))
}

/// Acceptance of a sparse evaluation at `(rx, ry)` from record `h`: the
/// product layer holds at the transcript's challenges and reduces to `out`;
/// its reduced claims, split into the row claims `cr` and column claims
/// `cc`, meet the hash layer's checks at the transcript's challenges, at the
/// equalized point `(rxe, rye)`.
pub open spec fn sparse_accepted(
    h: History,
    params: R1CSEvalsSetupParameters,
    proof: R1CSEvalsProof,
    encode_commit: EncodeCommit,
    rx: Seq<Fr>,
    ry: Seq<Fr>,
    evals: MatrixEvals,
    out: ProductLayerClaims,
    cr: MemoryClaims,
    cc: MemoryClaims,
    rxe: Seq<Fr>,
    rye: Seq<Fr>,
) -> bool {
    let layer = proof.prod_layer_proof;
    let hl = sp_pre_layer(h, proof);
    let (n, m) = (encode_commit.n as nat, encode_commit.m as nat);
    &&& equalized(rx, ry, rxe, rye)
    &&& crate::poly::two_pow(rxe.len()) == encode_commit.m
    &&& layer_identities_hold(layer, evals)
    &&& pl_ops_ok(hl, layer, n)
    &&& pl_mem_ok(hl, layer, n, m)
    &&& pl_ops_out(hl, layer, n, out.ops)
    &&& pl_mem_out(hl, layer, n, m, out.mem)
    &&& out.ops.claims_dotp@.len() == 3 * NUM_MATRICES
    &&& side_claims(cr, out, 0)
    &&& side_claims(cc, out, 1)
    &&& hash_layer_accepted(
        pl_post(hl, layer, n, m),
        params,
        proof.hash_layer_proof,
        rxe,
        rye,
        out.ops.rands@,
        out.mem.rands@,
        sp_gamma(h, proof, 0),
        sp_gamma(h, proof, 1),
        cr,
        cc,
        out.ops.claims_dotp@,
        encode_commit,
        proof.derefs_commit@,
    )
}

/// The absorbs of a table of values under `label`.
pub open spec fn nat_ops(label: Seq<char>, vs: Seq<nat>) -> History {
    Seq::new(vs.len(), |i: int| absorb_op(label, le_bytes(vs[i], 8)))
}

/// The combining point of a joint opening started at record `h`.
pub open spec fn js_cs(h: History, pre_label: Seq<char>, ev: Seq<nat>, k: nat, cs_label: Seq<char>) -> Seq<Fr> {
    Seq::new(
        k,
        |i: int| fr_of(challenge_scalar_of(h + nat_ops(pre_label, ev) + squeezes(cs_label, i as nat), cs_label)),
    )
}

/// The joint evaluation the opening claims.
pub open spec fn js_joint(h: History, pre_label: Seq<char>, ev: Seq<nat>, k: nat, cs_label: Seq<char>) -> nat {
    bind_all(ev, js_cs(h, pre_label, ev, k, cs_label))[0]
}

/// The commitment to the joint evaluation.
pub open spec fn js_commit(params: PolyCommitmentSetupParameters, joint: nat) -> crate::group::GroupElem {
    ge_of(commit_value(params.gen_1.generators@, params.gen_1.h, joint, 0))
}

/// The record at which the opening itself starts.
pub open spec fn js_h3(
    h: History,
    pre_label: Seq<char>,
    ev: Seq<nat>,
    k: nat,
    cs_label: Seq<char>,
    joint_label: Seq<char>,
) -> History {
    (h + nat_ops(pre_label, ev) + squeezes(cs_label, k)).push(
        absorb_op(joint_label, le_bytes(js_joint(h, pre_label, ev, k, cs_label), 8)),
    )
}

/// A joint opening holds at the transcript's challenges: the table `ev`
/// combined at the drawn point `cs` opens, at `cs` followed by `tail`,
/// against `commits`.
pub open spec fn js_ok(
    h: History,
    params: PolyCommitmentSetupParameters,
    pre_label: Seq<char>,
    ev: Seq<nat>,
    k: nat,
    cs_label: Seq<char>,
    joint_label: Seq<char>,
    tail: Seq<Fr>,
    commits: Seq<crate::group::GroupElem>,
    proof: DotProductProof,
) -> bool {
    let rs = js_cs(h, pre_label, ev, k, cs_label) + tail;
    let h3 = js_h3(h, pre_label, ev, k, cs_label, joint_label);
    let cm = js_commit(params, js_joint(h, pre_label, ev, k, cs_label));
    opening_holds(params, rs, commits, cm, proof, ip_us(h3, params, rs, commits, cm, proof), ip_c(h3, params, rs, commits, cm, proof))
}

/// The record after a joint opening.
pub open spec fn js_post(
    h: History,
    params: PolyCommitmentSetupParameters,
    pre_label: Seq<char>,
    ev: Seq<nat>,
    k: nat,
    cs_label: Seq<char>,
    joint_label: Seq<char>,
    tail: Seq<Fr>,
    commits: Seq<crate::group::GroupElem>,
    proof: DotProductProof,
) -> History {
    let rs = js_cs(h, pre_label, ev, k, cs_label) + tail;
    let h3 = js_h3(h, pre_label, ev, k, cs_label, joint_label);
    let cm = js_commit(params, js_joint(h, pre_label, ev, k, cs_label));
    ip_pre_c(h3, params, rs, commits, cm, proof).push(squeeze_op("challenge_tau"@, CHALLENGE_BYTES as nat))
}

/// Whether a joint opening of `k` combining coordinates at a point with
/// `tail_len` more has the shape and generators it needs.
pub open spec fn js_shape_ok(
    params: PolyCommitmentSetupParameters,
    k: nat,
    tail_len: nat,
    commits_len: nat,
    proof: DotProductProof,
) -> bool {
    dot_shape_ok(k + tail_len, commits_len, proof) && dot_params_ok(params, k + tail_len)
}

/// Absorbs a table of evaluations, draws `k` combining coordinates, and
/// verifies the opening of the joint polynomial committed in `commits` at
/// those coordinates followed by `tail`.
pub fn joint_opening_verify(
    params: &PolyCommitmentSetupParameters,
    evals: &Vec<Fr>,
    k: usize,
    pre_label: &'static str,
    cs_label: &'static str,
    joint_label: &'static str,
    tail: &Vec<Fr>,
    commits: &Vec<crate::group::GroupElem>,
    proof: &DotProductProof,
    transcript: &mut ProofTranscript,
) -> (res: Result<(), SynthesisError>)
    requires
        evals@.len() == crate::poly::two_pow(k as nat),
    ensures
        res is Err ==> res->Err_0 != SynthesisError::MissingAssignment,
        !js_shape_ok(*params, k as nat, tail@.len(), commits@.len(), *proof) ==> res is Err
            && res->Err_0 != SynthesisError::CryptographicCheckFailed,
        js_shape_ok(*params, k as nat, tail@.len(), commits@.len(), *proof) ==> {
            let h = old(transcript).history();
            let ev = fr_views(evals@);
            &&& (res is Ok <==> js_ok(h, *params, pre_label@, ev, k as nat, cs_label@, joint_label@, tail@, commits@, *proof))
            &&& res is Err ==> res->Err_0 == SynthesisError::CryptographicCheckFailed
            &&& final(transcript).history() == js_post(
                h,
                *params,
                pre_label@,
                ev,
                k as nat,
                cs_label@,
                joint_label@,
                tail@,
                commits@,
                *proof,
            )
        },
{
    let ghost h = transcript.history();
    let ghost ev = fr_views(evals@);
    let zero = Fr::zero();
    append_scalars(transcript, pre_label, evals);
    assert(scalar_ops(pre_label@, evals@) =~= nat_ops(pre_label@, ev));
    let ghost h1 = transcript.history();
    let cs = challenge_scalars(transcript, cs_label, k);
    assert(cs@ =~= js_cs(h, pre_label@, ev, k as nat, cs_label@));
    let joint = combine_evals(evals, &cs);
    let mut rs = cs.clone();
    push_all(&mut rs, tail);
    append_scalar(transcript, joint_label, &joint);
    assert(transcript.history() == js_h3(h, pre_label@, ev, k as nat, cs_label@, joint_label@));
    let commit = match commit_one(&params.gen_1, &joint, &zero) {
        Ok(g) => g,
        Err(e) => {
            return Err(e);
        },
    };
    commit.check_canonical();
    proof {
        lemma_pedersen_single(params.gen_1.generators@, joint, params.gen_1.h, zero);
        assert(commit == js_commit(*params, js_joint(h, pre_label@, ev, k as nat, cs_label@)));
    }
    inner_product_verify(params, &rs, commits, &commit, proof, transcript)
}

/// What acceptance of the hash layer means, at the transcript's
/// challenges from record `h`: the openings of the dereferenced values,
/// of the operation polynomials and of the audit timestamps; the
/// dot-product claims are those evaluations; and the timestamp identities
/// of rows (at `rx`) and columns (at `ry`).
pub open spec fn hash_layer_accepted(
    h: History,
    params: R1CSEvalsSetupParameters,
    proof: HashLayerProof,
    rx: Seq<Fr>,
    ry: Seq<Fr>,
    ops_rands: Seq<Fr>,
    mem_rands: Seq<Fr>,
    gamma1: Fr,
    gamma2: Fr,
    claims_row: MemoryClaims,
    claims_col: MemoryClaims,
    claims_dotp: Seq<Fr>,
    encode_commit: EncodeCommit,
    derefs_commit: Seq<crate::group::GroupElem>,
) -> bool {
    let hd = hl_derefs_start(h);
    let ho = hl_ops_start(h, params, proof, ops_rands, derefs_commit);
    let hm = hl_mem_start(h, params, proof, ops_rands, encode_commit, derefs_commit);
    &&& js_ok(
        hd,
        params.derefs_params,
        "evals_ops_val"@,
        padded_views(derefs_table(proof), 8),
        3,
        "challenge_combine_n_to_one"@,
        "joint_claim_eval"@,
        ops_rands,
        derefs_commit,
        proof.proof_derefs,
    )
    &&& dotp_claims_match(
        claims_dotp,
        proof.eval_row_ops_val@,
        proof.eval_col_ops_val@,
        proof.evals_val@,
    )
    &&& js_ok(
        ho,
        params.ops_params,
        "claim_evals_ops"@,
        padded_views(ops_table(proof), 16),
        4,
        "challenge_combine_n_to_one"@,
        "joint_claim_eval_ops"@,
        ops_rands,
        encode_commit.ops_commit@,
        proof.proof_ops,
    )
    &&& js_ok(
        hm,
        params.mem_params,
        "claim_evals_mem"@,
        padded_views(seq![proof.evals_row.audit_ts, proof.evals_col.audit_ts], 2),
        1,
        "challenge_combine_two_to_one"@,
        "joint_claim_eval_mem"@,
        mem_rands,
        encode_commit.mem_commit@,
        proof.proof_mem,
    )
    &&& timestamp_shape_ok(
        claims_row,
        proof.eval_row_ops_val@,
        proof.evals_row.addr_ops@,
        proof.evals_row.read_ts@,
        rx.len(),
        mem_rands.len(),
    )
    &&& timestamp_shape_ok(
        claims_col,
        proof.eval_col_ops_val@,
        proof.evals_col.addr_ops@,
        proof.evals_col.read_ts@,
        ry.len(),
        mem_rands.len(),
    )
    &&& timestamp_holds(
        mem_rands,
        claims_row,
        rx,
        proof.eval_row_ops_val@,
        proof.evals_row.addr_ops@,
        proof.evals_row.read_ts@,
        proof.evals_row.audit_ts,
        gamma1,
        gamma2,
    )
    &&& timestamp_holds(
        mem_rands,
        claims_col,
        ry,
        proof.eval_col_ops_val@,
        proof.evals_col.addr_ops@,
        proof.evals_col.read_ts@,
        proof.evals_col.audit_ts,
        gamma1,
        gamma2,
    )
}

/// The record at which the dereferenced values are absorbed.
pub open spec fn hl_derefs_start(h: History) -> History {
    text_hist(
        text_hist(h, "protocol-name"@, "Sparse polynomial hash layer proof".spec_bytes()),
        "protocol-name"@,
        "Derefs evaluation proof".spec_bytes(),
    )
}

/// The record at which the operation evaluations are absorbed.
pub open spec fn hl_ops_start(
    h: History,
    params: R1CSEvalsSetupParameters,
    proof: HashLayerProof,
    ops_rands: Seq<Fr>,
    derefs_commit: Seq<crate::group::GroupElem>,
) -> History {
    js_post(
        hl_derefs_start(h),
        params.derefs_params,
        "evals_ops_val"@,
        padded_views(derefs_table(proof), 8),
        3,
        "challenge_combine_n_to_one"@,
        "joint_claim_eval"@,
        ops_rands,
        derefs_commit,
        proof.proof_derefs,
    )
}

/// The record at which the audit timestamps are absorbed.
pub open spec fn hl_mem_start(
    h: History,
    params: R1CSEvalsSetupParameters,
    proof: HashLayerProof,
    ops_rands: Seq<Fr>,
    encode_commit: EncodeCommit,
    derefs_commit: Seq<crate::group::GroupElem>,
) -> History {
    js_post(
        hl_ops_start(h, params, proof, ops_rands, derefs_commit),
        params.ops_params,
        "claim_evals_ops"@,
        padded_views(ops_table(proof), 16),
        4,
        "challenge_combine_n_to_one"@,
        "joint_claim_eval_ops"@,
        ops_rands,
        encode_commit.ops_commit@,
        proof.proof_ops,
    )
}

/// The record after the hash layer.
pub open spec fn hl_post(
    h: History,
    params: R1CSEvalsSetupParameters,
    proof: HashLayerProof,
    ops_rands: Seq<Fr>,
    mem_rands: Seq<Fr>,
    encode_commit: EncodeCommit,
    derefs_commit: Seq<crate::group::GroupElem>,
) -> History {
    js_post(
        hl_mem_start(h, params, proof, ops_rands, encode_commit, derefs_commit),
        params.mem_params,
        "claim_evals_mem"@,
        padded_views(seq![proof.evals_row.audit_ts, proof.evals_col.audit_ts], 2),
        1,
        "challenge_combine_two_to_one"@,
        "joint_claim_eval_mem"@,
        mem_rands,
        encode_commit.mem_commit@,
        proof.proof_mem,
    )
}

/// Whether the hash layer's lists and the three openings have the shapes
/// and generators they need.
pub open spec fn hl_shapes_ok(
    params: R1CSEvalsSetupParameters,
    proof: HashLayerProof,
    claims_dotp: Seq<Fr>,
    ops_len: nat,
    mem_len: nat,
    encode_commit: EncodeCommit,
    derefs_len: nat,
) -> bool {
    &&& hash_layer_shape_ok(proof, claims_dotp)
    &&& js_shape_ok(params.derefs_params, 3, ops_len, derefs_len, proof.proof_derefs)
    &&& js_shape_ok(params.ops_params, 4, ops_len, encode_commit.ops_commit@.len(), proof.proof_ops)
    &&& js_shape_ok(params.mem_params, 1, mem_len, encode_commit.mem_commit@.len(), proof.proof_mem)
}

/// Verifies that the committed sparse encoding of `A`, `B`, `C` evaluates
/// to `evals` at `(rx, ry)`: memory checking of row and column lookups,
/// backed by the product circuits and the hash layer.
pub fn sparse_poly_eval_verify(
    params: &R1CSEvalsSetupParameters,
    proof: &R1CSEvalsProof,
    encode_commit: &EncodeCommit,
    rx: &Vec<Fr>,
    ry: &Vec<Fr>,
    evals: &MatrixEvals,
    transcript: &mut ProofTranscript,
) -> (res: Result<(), SynthesisError>)
    ensures
        res is Err ==> res->Err_0 != SynthesisError::MissingAssignment,
        crate::poly::two_pow(if rx@.len() >= ry@.len() { rx@.len() } else { ry@.len() })
            != encode_commit.m ==> res == Err::<(), _>(SynthesisError::ParameterMismatch),
        res is Ok ==> exists|
            out: ProductLayerClaims,
            cr: MemoryClaims,
            cc: MemoryClaims,
            rxe: Seq<Fr>,
            rye: Seq<Fr>,
        |
            #[trigger] sparse_accepted(
                old(transcript).history(),
                *params,
                *proof,
                *encode_commit,
                rx@,
                ry@,
                *evals,
                out,
                cr,
                cc,
                rxe,
                rye,
            ),
        crate::poly::two_pow(if rx@.len() >= ry@.len() { rx@.len() } else { ry@.len() })
            == encode_commit.m && layer_lists_ok(proof.prod_layer_proof) && is_pow2(encode_commit.n as nat)
            && is_pow2(encode_commit.m as nat) && layer_circuits_ok(
            proof.prod_layer_proof,
            encode_commit.n as nat,
            encode_commit.m as nat,
        ) && !(layer_identities_hold(proof.prod_layer_proof, *evals) && pl_ops_ok(
            sp_pre_layer(old(transcript).history(), *proof),
            proof.prod_layer_proof,
            encode_commit.n as nat,
        ) && pl_mem_ok(
            sp_pre_layer(old(transcript).history(), *proof),
            proof.prod_layer_proof,
            encode_commit.n as nat,
            encode_commit.m as nat,
        )) ==> res == Err::<(), _>(SynthesisError::CryptographicCheckFailed),
{
    let ghost h0 = transcript.history();
    append_text(transcript, "protocol-name", "sparse polynomial evaluation proof");
    let ghost rx0 = rx@;
    let ghost ry0 = ry@;
    let (rx, ry) = equalize_length(rx, ry);
    let n = encode_commit.n;
    let m = encode_commit.m;
    match crate::poly::pow2_checked(rx.len()) {
        None => {
            return Err(SynthesisError::ParameterMismatch);
        },
        Some(size) => {
            if size != m {
                return Err(SynthesisError::ParameterMismatch);
            }
        },
    }
    append_points(transcript, "comm_poly_row_col_ops_val", &proof.derefs_commit);
    let gamma = challenge_scalars(transcript, "challenge_gamma_hash", 2);
    assert(transcript.history() == sp_pre_layer(h0, *proof));
    assert(gamma@[0] == sp_gamma(h0, *proof, 0));
    assert(gamma@[1] == sp_gamma(h0, *proof, 1));
    let layer = product_layer_verify(&proof.prod_layer_proof, n, m, evals, transcript)?;
    if layer.ops.claims_dotp.len() != 3 * NUM_MATRICES {
        return Err(SynthesisError::ParameterMismatch);
    }
    let ops = &layer.ops.claims;
    let mem = &layer.mem.claims;
    let claims_row = MemoryClaims {
        init: mem[0],
        read: vec![ops[0], ops[1], ops[2]],
        write: vec![ops[3], ops[4], ops[5]],
        audit: mem[1],
    };
    let claims_col = MemoryClaims {
        init: mem[2],
        read: vec![ops[6], ops[7], ops[8]],
        write: vec![ops[9], ops[10], ops[11]],
        audit: mem[3],
    };
    proof {
        assert(claims_row.read@ =~= ops@.subrange(0, 3));
        assert(claims_row.write@ =~= ops@.subrange(3, 6));
        assert(claims_col.read@ =~= ops@.subrange(6, 9));
        assert(claims_col.write@ =~= ops@.subrange(9, 12));
    }
    hash_layer_verify(
        params,
        &proof.hash_layer_proof,
        &rx,
        &ry,
        &layer.ops.rands,
        &layer.mem.rands,
        &gamma[0],
        &gamma[1],
        &claims_row,
        &claims_col,
        &layer.ops.claims_dotp,
        encode_commit,
        &proof.derefs_commit,
        transcript,
    )?;
    proof {
        assert(side_claims(claims_row, layer, 0));
        assert(side_claims(claims_col, layer, 1));
        assert(equalized(rx0, ry0, rx@, ry@));
        assert(sparse_accepted(
            h0,
            *params,
            *proof,
            *encode_commit,
            rx0,
            ry0,
            *evals,
            layer,
            claims_row,
            claims_col,
            rx@,
            ry@,
        ));
    }
    Ok(())
}

} // verus!
