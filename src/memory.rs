use crate::errors::SynthesisError;
use crate::field::{fadd, fmul, fsub, Fr};
use crate::poly::{eq_prod, eval_eq_x_y};
use crate::proofs::MemoryClaims;
use vstd::prelude::*;

verus! {

/// The fingerprint of a memory tuple: `addr * g1^2 + val * g1 + ts - g2`.
pub open spec fn mem_hash(addr: nat, val: nat, ts: nat, g1: nat, g2: nat) -> nat {
    fsub(fadd(fadd(fmul(fmul(addr, g1), g1), fmul(val, g1)), ts), g2)
}

/// The identity polynomial at the point `rs` (first coordinate most
/// significant): `sum_i rs_i * 2^(n-1-i)`, in Horner form.
pub open spec fn addr_upto(rs: Seq<Fr>, n: nat) -> nat
    decreases n,
{
    if n == 0 {
        0
    } else {
        fadd(fmul(addr_upto(rs, (n - 1) as nat), 2), rs[n - 1]@)
    }
}

/// Whether the evaluations given for one memory have matching lengths.
pub open spec fn timestamp_shape_ok(
    claims: MemoryClaims,
    eval_ops_val: Seq<Fr>,
    eval_addr_ops: Seq<Fr>,
    eval_read_ts: Seq<Fr>,
    r_len: nat,
    rands_mem_len: nat,
) -> bool {
    let n = eval_addr_ops.len();
    &&& r_len == rands_mem_len
    &&& eval_ops_val.len() == n
    &&& eval_read_ts.len() == n
    &&& claims.read@.len() == n
    &&& claims.write@.len() == n
}

/// The four hash identities of offline memory checking at the evaluation
/// point: init and audit over the memory at `rands_mem`, reads and writes
/// (timestamp one higher) over the operations.
pub open spec fn timestamp_holds(
    rands_mem: Seq<Fr>,
    claims: MemoryClaims,
    r: Seq<Fr>,
    eval_ops_val: Seq<Fr>,
    eval_addr_ops: Seq<Fr>,
    eval_read_ts: Seq<Fr>,
    eval_audit_ts: Fr,
    g1: Fr,
    g2: Fr,
) -> bool {
    let addr = addr_upto(rands_mem, rands_mem.len());
    let val = eq_prod(r, rands_mem);
    &&& claims.init@ == mem_hash(addr, val, 0, g1@, g2@)
    &&& forall|i: int|
        0 <= i < eval_addr_ops.len() ==> (#[trigger] claims.read@[i])@ == mem_hash(
            eval_addr_ops[i]@,
            eval_ops_val[i]@,
            eval_read_ts[i]@,
            g1@,
            g2@,
        )
    &&& forall|i: int|
        0 <= i < eval_addr_ops.len() ==> (#[trigger] claims.write@[i])@ == mem_hash(
            eval_addr_ops[i]@,
            eval_ops_val[i]@,
            fadd(eval_read_ts[i]@, 1),
            g1@,
            g2@,
        )
    &&& claims.audit@ == mem_hash(addr, val, eval_audit_ts@, g1@, g2@)
}

fn hash(addr: &Fr, val: &Fr, ts: &Fr, g1: &Fr, g2: &Fr) -> (h: Fr)
    ensures
        h@ == mem_hash(addr@, val@, ts@, g1@, g2@),
{
    addr.mul(g1).mul(g1).add(&val.mul(g1)).add(ts).sub(g2)
}

/// The identity polynomial at `rs`.
pub fn eval_identity(rs: &Vec<Fr>) -> (v: Fr)
    ensures
        v@ == addr_upto(rs@, rs@.len()),
{
    let two = Fr::from_u64(2);
    let mut acc = Fr::zero();
    let mut i: usize = 0;
    while i < rs.len()
        invariant
            i <= rs@.len(),
            two@ == 2,
            acc@ == addr_upto(rs@, i as nat),
        decreases rs@.len() - i,
    {
        acc = acc.mul(&two).add(&rs[i]);
        i = i + 1;
    }
    acc
}

/// Checks the claims of one memory (rows or columns) against the
/// evaluations of its address, value and timestamp polynomials: the last
/// step of offline memory checking.
pub fn behind_verify_for_timestamp(
    rands_mem: &Vec<Fr>,
    claims: &MemoryClaims,
    r: &Vec<Fr>,
    eval_ops_val: &Vec<Fr>,
    eval_addr_ops_list: &Vec<Fr>,
    eval_read_ts_list: &Vec<Fr>,
    eval_audit_ts_val: &Fr,
    gamma1: &Fr,
    gamma2: &Fr,
) -> (res: Result<(), SynthesisError>)
    ensures
        (res == Err::<(), _>(SynthesisError::MalformedProof)) <==> !timestamp_shape_ok(
            *claims,
            eval_ops_val@,
            eval_addr_ops_list@,
            eval_read_ts_list@,
            r@.len(),
            rands_mem@.len(),
        ),
        res is Ok <==> (timestamp_shape_ok(
            *claims,
            eval_ops_val@,
            eval_addr_ops_list@,
            eval_read_ts_list@,
            r@.len(),
            rands_mem@.len(),
        ) && timestamp_holds(
            rands_mem@,
            *claims,
            r@,
            eval_ops_val@,
            eval_addr_ops_list@,
            eval_read_ts_list@,
            *eval_audit_ts_val,
            *gamma1,
            *gamma2,
        )),
        res is Err ==> res->Err_0 != SynthesisError::MissingAssignment,
{
    let n = eval_addr_ops_list.len();
    if eval_ops_val.len() != n || eval_read_ts_list.len() != n || claims.read.len() != n
        || claims.write.len() != n || r.len() != rands_mem.len() {
        return Err(SynthesisError::MalformedProof);
    }
    let zero = Fr::zero();
    let one = Fr::one();
    let init_addr = eval_identity(rands_mem);
    let init_val = eval_eq_x_y(r, rands_mem);
    let h_init = hash(&init_addr, &init_val, &zero, gamma1, gamma2);
    if !claims.init.equals(&h_init) {
        return Err(SynthesisError::CryptographicCheckFailed);
    }
    let mut i: usize = 0;
    while i < n
        invariant
            i <= n,
            timestamp_shape_ok(*claims, eval_ops_val@, eval_addr_ops_list@, eval_read_ts_list@, r@.len(), rands_mem@.len()),
            n == eval_addr_ops_list@.len(),
            r@.len() == rands_mem@.len(),
            claims.init@ == h_init@,
            forall|k: int|
                0 <= k < i ==> (#[trigger] claims.read@[k])@ == mem_hash(
                    eval_addr_ops_list@[k]@,
                    eval_ops_val@[k]@,
                    eval_read_ts_list@[k]@,
                    gamma1@,
                    gamma2@,
                ),
        decreases n - i,
    {
        let h = hash(&eval_addr_ops_list[i], &eval_ops_val[i], &eval_read_ts_list[i], gamma1, gamma2);
        if !claims.read[i].equals(&h) {
            return Err(SynthesisError::CryptographicCheckFailed);
        }
        i = i + 1;
    }
    let mut i: usize = 0;
    while i < n
        invariant
            i <= n,
            one@ == 1,
            timestamp_shape_ok(*claims, eval_ops_val@, eval_addr_ops_list@, eval_read_ts_list@, r@.len(), rands_mem@.len()),
            n == eval_addr_ops_list@.len(),
            r@.len() == rands_mem@.len(),
            claims.init@ == h_init@,
            forall|k: int|
                0 <= k < i ==> (#[trigger] claims.write@[k])@ == mem_hash(
                    eval_addr_ops_list@[k]@,
                    eval_ops_val@[k]@,
                    fadd(eval_read_ts_list@[k]@, 1),
                    gamma1@,
                    gamma2@,
                ),
        decreases n - i,
    {
        let ts = eval_read_ts_list[i].add(&one);
        let h = hash(&eval_addr_ops_list[i], &eval_ops_val[i], &ts, gamma1, gamma2);
        if !claims.write[i].equals(&h) {
            return Err(SynthesisError::CryptographicCheckFailed);
        }
        i = i + 1;
    }
    let h_audit = hash(&init_addr, &init_val, eval_audit_ts_val, gamma1, gamma2);
    if !claims.audit.equals(&h_audit) {
        return Err(SynthesisError::CryptographicCheckFailed);
    }
    Ok(())
}

} // verus!

verus! {

pub proof fn lemma_fmul_assoc(a: nat, b: nat, c: nat)
    ensures
        fmul(fmul(a, b), c) == fmul(a, fmul(b, c)),
{
    let m = crate::field::FIELD_MODULUS as int;
    vstd::arithmetic::div_mod::lemma_mul_mod_noop_left((a * b) as int, c as int, m);
    vstd::arithmetic::div_mod::lemma_mul_mod_noop_right(a as int, (b * c) as int, m);
    vstd::arithmetic::mul::lemma_mul_is_associative(a as int, b as int, c as int);
}

pub proof fn lemma_fmul_comm(a: nat, b: nat)
    ensures
        fmul(a, b) == fmul(b, a),
{
    vstd::arithmetic::mul::lemma_mul_is_commutative(a as int, b as int);
}

/// `(p * x) * y == (p * y) * x`.
proof fn lemma_fmul_swap(p: nat, x: nat, y: nat)
    ensures
        fmul(fmul(p, x), y) == fmul(fmul(p, y), x),
{
    lemma_fmul_assoc(p, x, y);
    lemma_fmul_assoc(p, y, x);
    lemma_fmul_comm(x, y);
}

/// How often address `a` occurs among the first `k` accesses.
pub open spec fn access_count(addrs: Seq<nat>, k: nat, a: nat) -> nat
    decreases k,
{
    if k == 0 {
        0
    } else {
        access_count(addrs, (k - 1) as nat, a) + if addrs[k - 1] == a { 1nat } else { 0nat }
    }
}

/// The product of the fingerprints of the reads among the first `k`
/// accesses of a read-only memory holding `vals`: access `j` reads the
/// value of its address with the number of earlier accesses to it as
/// timestamp.
pub open spec fn read_prod(vals: Seq<nat>, addrs: Seq<nat>, g1: nat, g2: nat, k: nat) -> nat
    decreases k,
{
    if k == 0 {
        1
    } else {
        let a = addrs[k - 1];
        fmul(
            read_prod(vals, addrs, g1, g2, (k - 1) as nat),
            mem_hash(a, vals[a as int], access_count(addrs, (k - 1) as nat, a), g1, g2),
        )
    }
}

/// The product of the fingerprints of the writes among the first `k`
/// accesses: each writes the value back with its timestamp plus one.
pub open spec fn write_prod(vals: Seq<nat>, addrs: Seq<nat>, g1: nat, g2: nat, k: nat) -> nat
    decreases k,
{
    if k == 0 {
        1
    } else {
        let a = addrs[k - 1];
        fmul(
            write_prod(vals, addrs, g1, g2, (k - 1) as nat),
            mem_hash(a, vals[a as int], access_count(addrs, (k - 1) as nat, a) + 1, g1, g2),
        )
    }
}

/// The product of the fingerprints of the cells below `m` after the first
/// `k` accesses: with `k == 0` the initial memory, with all accesses the
/// audit.
pub open spec fn cells_prod(vals: Seq<nat>, addrs: Seq<nat>, g1: nat, g2: nat, k: nat, m: nat) -> nat
    decreases m,
{
    if m == 0 {
        1
    } else {
        let a = (m - 1) as nat;
        fmul(
            cells_prod(vals, addrs, g1, g2, k, a),
            mem_hash(a, vals[a as int], access_count(addrs, k, a), g1, g2),
        )
    }
}

proof fn lemma_cells_step(vals: Seq<nat>, addrs: Seq<nat>, g1: nat, g2: nat, k: nat, m: nat)
    requires
        k < addrs.len(),
    ensures
        ({
            let a = addrs[k as int];
            let t = access_count(addrs, k, a);
            if a < m {
                fmul(cells_prod(vals, addrs, g1, g2, k + 1, m), mem_hash(a, vals[a as int], t, g1, g2))
                    == fmul(
                    cells_prod(vals, addrs, g1, g2, k, m),
                    mem_hash(a, vals[a as int], t + 1, g1, g2),
                )
            } else {
                cells_prod(vals, addrs, g1, g2, k + 1, m) == cells_prod(vals, addrs, g1, g2, k, m)
            }
        }),
    decreases m,
{
    let a = addrs[k as int];
    let t = access_count(addrs, k, a);
    if m > 0 {
        let c = (m - 1) as nat;
        lemma_cells_step(vals, addrs, g1, g2, k, c);
        let hk = mem_hash(c, vals[c as int], access_count(addrs, k, c), g1, g2);
        let hk1 = mem_hash(c, vals[c as int], access_count(addrs, k + 1, c), g1, g2);
        let p1 = cells_prod(vals, addrs, g1, g2, k + 1, c);
        let p0 = cells_prod(vals, addrs, g1, g2, k, c);
        let ht = mem_hash(a, vals[a as int], t, g1, g2);
        let ht1 = mem_hash(a, vals[a as int], t + 1, g1, g2);
        if c == a {
            assert(p1 == p0);
            assert(hk1 == ht1);
            assert(hk == ht);
            lemma_fmul_swap(p0, ht1, ht);
        } else {
            assert(hk1 == hk);
            if a < c {
                // fmul(p1, ht) == fmul(p0, ht1), both sides times hk
                lemma_fmul_swap(p1, hk, ht);
                lemma_fmul_swap(p0, hk, ht1);
            }
        }
    }
}

/// Offline memory checking is complete: for any read-only memory of `m`
/// cells and any sequence of accesses to it, where each access reads the
/// cell with its current timestamp and writes it back with the timestamp
/// plus one, `init * write == read * audit` over the fingerprints.
pub proof fn lemma_memory_check_identity(
    vals: Seq<nat>,
    addrs: Seq<nat>,
    g1: nat,
    g2: nat,
    m: nat,
)
    requires
        vals.len() == m,
        forall|j: int| 0 <= j < addrs.len() ==> #[trigger] addrs[j] < m,
    ensures
        fmul(cells_prod(vals, addrs, g1, g2, 0, m), write_prod(vals, addrs, g1, g2, addrs.len()))
            == fmul(
            read_prod(vals, addrs, g1, g2, addrs.len()),
            cells_prod(vals, addrs, g1, g2, addrs.len(), m),
        ),
{
    lemma_memory_prefix(vals, addrs, g1, g2, m, addrs.len());
}

proof fn lemma_memory_prefix(vals: Seq<nat>, addrs: Seq<nat>, g1: nat, g2: nat, m: nat, k: nat)
    requires
        k <= addrs.len(),
        forall|j: int| 0 <= j < addrs.len() ==> #[trigger] addrs[j] < m,
    ensures
        fmul(cells_prod(vals, addrs, g1, g2, 0, m), write_prod(vals, addrs, g1, g2, k)) == fmul(
            read_prod(vals, addrs, g1, g2, k),
            cells_prod(vals, addrs, g1, g2, k, m),
        ),
    decreases k,
{
    let init = cells_prod(vals, addrs, g1, g2, 0, m);
    if k == 0 {
        lemma_fmul_comm(init, 1);
    } else {
        let j = (k - 1) as nat;
        lemma_memory_prefix(vals, addrs, g1, g2, m, j);
        let a = addrs[j as int];
        assert(a < m);
        let t = access_count(addrs, j, a);
        let ht = mem_hash(a, vals[a as int], t, g1, g2);
        let ht1 = mem_hash(a, vals[a as int], t + 1, g1, g2);
        let w = write_prod(vals, addrs, g1, g2, j);
        let r = read_prod(vals, addrs, g1, g2, j);
        let c0 = cells_prod(vals, addrs, g1, g2, j, m);
        let c1 = cells_prod(vals, addrs, g1, g2, k, m);
        lemma_cells_step(vals, addrs, g1, g2, j, m);
        // init * (w * ht1) == (init * w) * ht1 == (r * c0) * ht1 == r * (c0 * ht1)
        //   == r * (c1 * ht) == (r * ht) * c1
        lemma_fmul_assoc(init, w, ht1);
        lemma_fmul_assoc(r, c0, ht1);
        lemma_fmul_assoc(r, c1, ht);
        lemma_fmul_swap(r, c1, ht);
    }
}

} // verus!
