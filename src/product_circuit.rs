use crate::errors::SynthesisError;
use crate::codec::le_bytes;
use crate::field::{fadd, fmul, fr_of, Fr};
use crate::inner_product::fr_views;
use crate::poly::{eq_prod, eval_eq_x_y, inner_product, inner_upto, lerp, two_pow};
use crate::proofs::{DotpClaims, LayerProof, ProductCircuitEvalProof};
use crate::sumcheck::{cubic_check, cubic_post, cubic_rs, cubic_run, cubic_shape_ok, sum_check_cubic_verify};
use crate::sigma::verdict;
use crate::transcript::{
    absorb_op, append_scalar, challenge_scalar, challenge_scalar_of, challenge_scalars, squeeze_op,
    squeezes, History, ProofTranscript, CHALLENGE_BYTES,
};
use vstd::prelude::*;

verus! {

/// `sum_{i<n} coeff_i * left_i * right_i * eq`.
pub open spec fn prod_expected_upto(
    left: Seq<Fr>,
    right: Seq<Fr>,
    coeffs: Seq<Fr>,
    eq: nat,
    n: nat,
) -> nat
    decreases n,
{
    if n == 0 {
        0
    } else {
        fadd(
            prod_expected_upto(left, right, coeffs, eq, (n - 1) as nat),
            fmul(coeffs[n - 1]@, fmul(fmul(left[n - 1]@, right[n - 1]@), eq)),
        )
    }
}

/// `sum_{i<n} coeff_{off+i} * row_i * col_i * val_i`.
pub open spec fn dotp_expected_upto(dotp: DotpClaims, coeffs: Seq<Fr>, off: nat, n: nat) -> nat
    decreases n,
{
    if n == 0 {
        0
    } else {
        fadd(
            dotp_expected_upto(dotp, coeffs, off, (n - 1) as nat),
            fmul(
                fmul(fmul(coeffs[off + n - 1]@, dotp.row@[n - 1]@), dotp.col@[n - 1]@),
                dotp.val@[n - 1]@,
            ),
        )
    }
}

/// The value that the final claim of a layer's sumcheck must take: the
/// combined products of the layer's halves at the point, plus, on the last
/// layer, the combined dot-product terms.
pub open spec fn layer_expected(
    layer: LayerProof,
    dotp: DotpClaims,
    last: bool,
    coeffs: Seq<Fr>,
    eq: nat,
) -> nat {
    let n = layer.claim_prod_left@.len();
    let base = prod_expected_upto(layer.claim_prod_left@, layer.claim_prod_right@, coeffs, eq, n);
    if last {
        fadd(base, dotp_expected_upto(dotp, coeffs, n, dotp.row@.len()))
    } else {
        base
    }
}

/// `sum_{i<n} claims_i * coeffs_i`.
pub open spec fn combine_upto(claims: Seq<nat>, coeffs: Seq<Fr>, n: nat) -> nat
    decreases n,
{
    if n == 0 {
        0
    } else {
        fadd(combine_upto(claims, coeffs, (n - 1) as nat), fmul(claims[n - 1], coeffs[n - 1]@))
    }
}

pub proof fn lemma_combine_views(a: Seq<Fr>, b: Seq<Fr>, n: nat)
    requires
        n <= a.len(),
    ensures
        inner_upto(a, b, n) == combine_upto(fr_views(a), b, n),
    decreases n,
{
    if n > 0 {
        lemma_combine_views(a, b, (n - 1) as nat);
    }
}

/// A layer holds when its sumcheck, started from the claims combined by
/// `coeffs`, ends (under challenges `rs`) on the expected value at the
/// point `rs` against the accumulated challenges `rands`.
pub open spec fn layer_holds(
    layer: LayerProof,
    dotp: DotpClaims,
    last: bool,
    claims: Seq<nat>,
    coeffs: Seq<Fr>,
    rs: Seq<Fr>,
    rands: Seq<Fr>,
) -> bool {
    cubic_run(layer.polys@, combine_upto(claims, coeffs, claims.len()), rs, rs.len()) == Some(
        layer_expected(layer, dotp, last, coeffs, eq_prod(rs, rands)),
    )
}

/// The product claims that layer `i` starts from: the claimed products at
/// layer 0; then the two halves of the previous layer on the line through
/// them at that layer's challenge `r_layers[i - 1]`.
pub open spec fn layer_claims(
    proof: ProductCircuitEvalProof,
    claims_prod: Seq<Fr>,
    r_layers: Seq<Fr>,
    i: int,
) -> Seq<nat> {
    if i == 0 {
        fr_views(claims_prod)
    } else {
        let l = proof.layers_proof@[i - 1];
        Seq::new(
            claims_prod.len(),
            |q: int| lerp(l.claim_prod_left@[q]@, l.claim_prod_right@[q]@, r_layers[i - 1]@),
        )
    }
}

/// The claims that layer `i` combines: its product claims, followed on the
/// last layer by the dot-product claims.
pub open spec fn layer_inputs(
    proof: ProductCircuitEvalProof,
    claims_prod: Seq<Fr>,
    claims_dotp: Seq<Fr>,
    layers: nat,
    r_layers: Seq<Fr>,
    i: int,
) -> Seq<nat> {
    if i == layers - 1 {
        layer_claims(proof, claims_prod, r_layers, i) + fr_views(claims_dotp)
    } else {
        layer_claims(proof, claims_prod, r_layers, i)
    }
}

/// The point layer `i` is reduced at: empty for the top layer, then the
/// previous layer's challenge followed by its sumcheck challenges.
pub open spec fn layer_point(r_layers: Seq<Fr>, rss: Seq<Seq<Fr>>, i: int) -> Seq<Fr> {
    if i == 0 {
        Seq::empty()
    } else {
        seq![r_layers[i - 1]] + rss[i - 1]
    }
}

/// Layer `i` holds under the combining coefficients `coeffss[i]`, the
/// sumcheck challenges `rss[i]` and the earlier layer challenges.
pub open spec fn layer_ok(
    proof: ProductCircuitEvalProof,
    claims_prod: Seq<Fr>,
    claims_dotp: Seq<Fr>,
    layers: nat,
    coeffss: Seq<Seq<Fr>>,
    rss: Seq<Seq<Fr>>,
    r_layers: Seq<Fr>,
    i: int,
) -> bool {
    let inputs = layer_inputs(proof, claims_prod, claims_dotp, layers, r_layers, i);
    &&& coeffss[i].len() == inputs.len()
    &&& rss[i].len() == i
    &&& layer_holds(
        proof.layers_proof@[i],
        proof.claim_dotp,
        i == layers - 1,
        inputs,
        coeffss[i],
        rss[i],
        layer_point(r_layers, rss, i),
    )
}

/// Every layer holds, each starting from what the layer above reduced to
/// (the first from the claimed products), under the given challenges.
pub open spec fn circuit_accepted(
    proof: ProductCircuitEvalProof,
    claims_prod: Seq<Fr>,
    claims_dotp: Seq<Fr>,
    layers: nat,
    coeffss: Seq<Seq<Fr>>,
    rss: Seq<Seq<Fr>>,
    r_layers: Seq<Fr>,
) -> bool {
    &&& coeffss.len() == layers
    &&& rss.len() == layers
    &&& r_layers.len() == layers
    &&& forall|i: int|
        0 <= i < layers ==> #[trigger] layer_ok(
            proof,
            claims_prod,
            claims_dotp,
            layers,
            coeffss,
            rss,
            r_layers,
            i,
        )
}

/// The product claims layer `i` starts from, as field elements.
pub open spec fn exact_claims(
    proof: ProductCircuitEvalProof,
    claims_prod: Seq<Fr>,
    r_layers: Seq<Fr>,
    i: int,
) -> Seq<Fr> {
    Seq::new(claims_prod.len(), |q: int| fr_of(layer_claims(proof, claims_prod, r_layers, i)[q]))
}

/// What the circuit reduces to under those challenges: the product claims
/// below the last layer, its point, and each dot-product pair on the line
/// through it at the last layer challenge.
pub open spec fn circuit_output(
    out: CircuitClaims,
    proof: ProductCircuitEvalProof,
    claims_prod: Seq<Fr>,
    layers: nat,
    rss: Seq<Seq<Fr>>,
    r_layers: Seq<Fr>,
) -> bool {
    let d = proof.claim_dotp;
    &&& fr_views(out.claims@) == layer_claims(proof, claims_prod, r_layers, layers as int)
    &&& layers > 0 ==> out.claims@ == exact_claims(proof, claims_prod, r_layers, layers as int)
    &&& layers == 0 ==> out.claims@ == claims_prod
    &&& layers > 0 ==> forall|q: int|
        0 <= q < d.row@.len() / 2 ==> {
            &&& (#[trigger] out.claims_dotp@[3 * q]) == fr_of(
                lerp(d.row@[2 * q]@, d.row@[2 * q + 1]@, r_layers[layers - 1]@),
            )
            &&& out.claims_dotp@[3 * q + 1] == fr_of(
                lerp(d.col@[2 * q]@, d.col@[2 * q + 1]@, r_layers[layers - 1]@),
            )
            &&& out.claims_dotp@[3 * q + 2] == fr_of(
                lerp(d.val@[2 * q]@, d.val@[2 * q + 1]@, r_layers[layers - 1]@),
            )
        }
    &&& out.rands@ == layer_point(r_layers, rss, layers as int)
    &&& out.claims_dotp@.len() == if layers > 0 { 3 * (d.row@.len() / 2) } else { 0 }
    &&& layers > 0 ==> forall|q: int|
        0 <= q < d.row@.len() / 2 ==> {
            &&& (#[trigger] out.claims_dotp@[3 * q])@ == lerp(
                d.row@[2 * q]@,
                d.row@[2 * q + 1]@,
                r_layers[layers - 1]@,
            )
            &&& out.claims_dotp@[3 * q + 1]@ == lerp(
                d.col@[2 * q]@,
                d.col@[2 * q + 1]@,
                r_layers[layers - 1]@,
            )
            &&& out.claims_dotp@[3 * q + 2]@ == lerp(
                d.val@[2 * q]@,
                d.val@[2 * q + 1]@,
                r_layers[layers - 1]@,
            )
        }
}

/// Whether a product-circuit proof has the shape for `num_claims` products
/// over `2^layers` leaves, with `num_dotp` dot-product claims.
pub open spec fn circuit_shape_ok(
    proof: ProductCircuitEvalProof,
    num_claims: nat,
    num_dotp: nat,
    layers: nat,
) -> bool {
    &&& proof.layers_proof@.len() == layers
    &&& forall|i: int|
        0 <= i < layers ==> {
            &&& cubic_shape_ok((#[trigger] proof.layers_proof@[i]).polys@, i as nat)
            &&& proof.layers_proof@[i].claim_prod_left@.len() == num_claims
            &&& proof.layers_proof@[i].claim_prod_right@.len() == num_claims
        }
    &&& proof.claim_dotp.row@.len() == num_dotp
    &&& proof.claim_dotp.col@.len() == num_dotp
    &&& proof.claim_dotp.val@.len() == num_dotp
    &&& num_dotp % 2 == 0
}

/// Whether a layer's check has matching lengths: one round polynomial per
/// challenge, a point of the same dimension, one coefficient per claim,
/// and room for the dot-product terms on the last layer.
pub open spec fn layer_check_shape_ok(
    layer: LayerProof,
    dotp: DotpClaims,
    last: bool,
    claims: nat,
    coeffs: nat,
    rs: nat,
    rands: nat,
) -> bool {
    &&& layer.polys@.len() == rs
    &&& rs == rands
    &&& coeffs == claims
    &&& layer.claim_prod_right@.len() == layer.claim_prod_left@.len()
    &&& dotp.col@.len() == dotp.row@.len()
    &&& dotp.val@.len() == dotp.row@.len()
    &&& claims >= layer.claim_prod_left@.len() + if last { dotp.row@.len() } else { 0 }
}

/// Checks one layer under its combining coefficients, sumcheck challenges
/// and point.
pub fn layer_check(
    layer: &LayerProof,
    dotp: &DotpClaims,
    last: bool,
    claims: &Vec<Fr>,
    coeffs: &Vec<Fr>,
    rs: &Vec<Fr>,
    rands: &Vec<Fr>,
) -> (res: Result<(), SynthesisError>)
    ensures
        (res == Err::<(), _>(SynthesisError::MalformedProof)) <==> !layer_check_shape_ok(
            *layer,
            *dotp,
            last,
            claims@.len(),
            coeffs@.len(),
            rs@.len(),
            rands@.len(),
        ),
        layer_check_shape_ok(
            *layer,
            *dotp,
            last,
            claims@.len(),
            coeffs@.len(),
            rs@.len(),
            rands@.len(),
        ) ==> verdict(res, layer_holds(*layer, *dotp, last, fr_views(claims@), coeffs@, rs@, rands@)),
{
    let clen = claims.len();
    if layer.polys.len() != rs.len() || rs.len() != rands.len() || coeffs.len() != clen
        || layer.claim_prod_right.len() != layer.claim_prod_left.len() || dotp.col.len()
        != dotp.row.len() || dotp.val.len() != dotp.row.len() || clen < layer.claim_prod_left.len()
        || (last && clen - layer.claim_prod_left.len() < dotp.row.len()) {
        return Err(SynthesisError::MalformedProof);
    }
    let claim = inner_product(claims, coeffs, clen);
    proof {
        lemma_combine_views(claims@, coeffs@, clen as nat);
        assert(fr_views(claims@).len() == clen);
    }
    match cubic_check(&layer.polys, &claim, rs) {
        None => Err(SynthesisError::CryptographicCheckFailed),
        Some(fin) => {
            let eq = eval_eq_x_y(rs, rands);
            let expected = layer_expected_claim(layer, dotp, last, coeffs, &eq);
            if expected.equals(&fin) {
                Ok(())
            } else {
                Err(SynthesisError::CryptographicCheckFailed)
            }
        },
    }
}

/// The value a layer's sumcheck must end on.
pub fn layer_expected_claim(
    layer: &LayerProof,
    dotp: &DotpClaims,
    last: bool,
    coeffs: &Vec<Fr>,
    eq: &Fr,
) -> (r: Fr)
    requires
        layer.claim_prod_right@.len() == layer.claim_prod_left@.len(),
        dotp.col@.len() == dotp.row@.len(),
        dotp.val@.len() == dotp.row@.len(),
        coeffs@.len() >= layer.claim_prod_left@.len() + if last { dotp.row@.len() } else { 0 },
    ensures
        r@ == layer_expected(*layer, *dotp, last, coeffs@, eq@),
{
    let left = &layer.claim_prod_left;
    let right = &layer.claim_prod_right;
    let n = left.len();
    let mut acc = Fr::zero();
    let mut i: usize = 0;
    while i < n
        invariant
            n == left@.len(),
            i <= n,
            right@.len() == n,
            coeffs@.len() >= n,
            acc@ == prod_expected_upto(left@, right@, coeffs@, eq@, i as nat),
        decreases n - i,
    {
        acc = acc.add(&coeffs[i].mul(&left[i].mul(&right[i]).mul(eq)));
        i = i + 1;
    }
    if last {
        let clen = coeffs.len();
        let mut extra = Fr::zero();
        let mut j: usize = 0;
        while j < dotp.row.len()
            invariant
                j <= dotp.row@.len(),
                dotp.col@.len() == dotp.row@.len(),
                dotp.val@.len() == dotp.row@.len(),
                coeffs@.len() >= n + dotp.row@.len(),
                clen == coeffs@.len(),
                extra@ == dotp_expected_upto(*dotp, coeffs@, n as nat, j as nat),
            decreases dotp.row@.len() - j,
        {
            extra = extra.add(&coeffs[n + j].mul(&dotp.row[j]).mul(&dotp.col[j]).mul(&dotp.val[j]));
            j = j + 1;
        }
        acc.add(&extra)
    } else {
        acc
    }
}

} // verus!

verus! {

/// Whether `n` is a power of two.
pub open spec fn is_pow2(n: nat) -> bool
    decreases n,
{
    if n == 1 {
        true
    } else if n == 0 || n % 2 == 1 {
        false
    } else {
        is_pow2(n / 2)
    }
}

/// `floor(log2(n))`, zero for `n <= 1`.
pub open spec fn log2_of(n: nat) -> nat
    decreases n,
{
    if n <= 1 {
        0
    } else {
        1 + log2_of(n / 2)
    }
}

pub proof fn lemma_two_pow_gt(k: nat)
    ensures
        two_pow(k) > k,
    decreases k,
{
    if k > 0 {
        lemma_two_pow_gt((k - 1) as nat);
    }
}

/// `log2(n)` for a power of two `n`; `None` for any other `n`.
pub fn log2_exact(n: usize) -> (r: Option<usize>)
    ensures
        r is Some <==> is_pow2(n as nat),
        r is Some ==> r->0 == log2_of(n as nat) && two_pow(log2_of(n as nat)) == n,
{
    let mut m: usize = n;
    let mut k: usize = 0;
    assert(two_pow(0) == 1);
    while m > 1
        invariant
            m <= n,
            is_pow2(n as nat) == is_pow2(m as nat),
            log2_of(n as nat) == k + log2_of(m as nat),
            is_pow2(m as nat) ==> two_pow(k as nat) * m == n,
            m >= 1 ==> two_pow(k as nat) * m <= n,
            n >= 1 ==> m >= 1,
        decreases m,
    {
        if m % 2 == 1 {
            return None;
        }
        proof {
            assert(two_pow((k + 1) as nat) * (m / 2) == two_pow(k as nat) * m) by (nonlinear_arith)
                requires
                    m % 2 == 0,
                    two_pow((k + 1) as nat) == 2 * two_pow(k as nat),
            ;
            lemma_two_pow_gt(k as nat);
            assert(two_pow(k as nat) <= n) by (nonlinear_arith)
                requires
                    two_pow(k as nat) * m <= n,
                    m >= 2,
            ;
        }
        m = m / 2;
        k = k + 1;
    }
    if m == 0 {
        return None;
    }
    assert(m == 1);
    assert(is_pow2(1) && log2_of(1) == 0);
    assert(two_pow(k as nat) * 1 == two_pow(k as nat));
    Some(k)
}

/// What the product circuit reduces its claims to: the claims at one point,
/// the reduced dot-product claims (row, column, value for each pair), and
/// the point.
#[derive(Clone, Debug)]
pub struct CircuitClaims {
    pub claims: Vec<Fr>,
    pub claims_dotp: Vec<Fr>,
    pub rands: Vec<Fr>,
}

/// Whether a product-circuit proof has the shape for `num_claims` products
/// over `2^layers` leaves with `num_dotp` dot-product claims.
pub fn shape_check(proof: &ProductCircuitEvalProof, num_claims: usize, num_dotp: usize, layers: usize) -> (r:
    bool)
    ensures
        r == circuit_shape_ok(*proof, num_claims as nat, num_dotp as nat, layers as nat),
{
    if proof.layers_proof.len() != layers || proof.claim_dotp.row.len() != num_dotp
        || proof.claim_dotp.col.len() != num_dotp || proof.claim_dotp.val.len() != num_dotp
        || num_dotp % 2 != 0 {
        return false;
    }
    let mut i: usize = 0;
    while i < layers
        invariant
            i <= layers,
            proof.layers_proof@.len() == layers,
            forall|k: int|
                0 <= k < i ==> {
                    &&& cubic_shape_ok((#[trigger] proof.layers_proof@[k]).polys@, k as nat)
                    &&& proof.layers_proof@[k].claim_prod_left@.len() == num_claims
                    &&& proof.layers_proof@[k].claim_prod_right@.len() == num_claims
                },
        decreases layers - i,
    {
        let layer = &proof.layers_proof[i];
        if layer.claim_prod_left.len() != num_claims || layer.claim_prod_right.len() != num_claims
            || layer.polys.len() != i {
            return false;
        }
        let mut j: usize = 0;
        while j < i
            invariant
                j <= i,
                i < layers,
                proof.layers_proof@.len() == layers,
                *layer == proof.layers_proof@[i as int],
                layer.polys@.len() == i,
                forall|q: int| 0 <= q < j ==> (#[trigger] layer.polys@[q])@.len() <= 4,
            decreases i - j,
        {
            if layer.polys[j].len() > 4 {
                assert(!cubic_shape_ok(proof.layers_proof@[i as int].polys@, i as nat));
                return false;
            }
            j = j + 1;
        }
        i = i + 1;
    }
    true
}

/// The label the combining coefficients of a layer are drawn under.
pub open spec fn coeff_label() -> Seq<char> {
    "rand_coeffs_next_layer"@
}

/// How many claims layer `i` combines.
pub open spec fn pc_count(nc: nat, nd: nat, layers: nat, i: nat) -> nat {
    if i == layers - 1 {
        nc + nd
    } else {
        nc
    }
}

/// `count` combining coefficients drawn from record `h`.
pub open spec fn pc_coeffs(h: History, count: nat) -> Seq<Fr> {
    Seq::new(
        count,
        |j: int| fr_of(challenge_scalar_of(h + squeezes(coeff_label(), j as nat), coeff_label())),
    )
}

/// The absorbs of a layer's left and right claims, pair by pair.
pub open spec fn lr_ops(left: Seq<Fr>, right: Seq<Fr>) -> History {
    Seq::new(
        2 * left.len(),
        |k: int|
            if k % 2 == 0 {
                absorb_op("claim_prod_left"@, le_bytes(left[k / 2]@, 8))
            } else {
                absorb_op("claim_prod_right"@, le_bytes(right[k / 2]@, 8))
            },
    )
}

/// The absorbs of the dot-product claims, row, column and value in turn.
pub open spec fn dotp_ops(row: Seq<Fr>, col: Seq<Fr>, val: Seq<Fr>) -> History {
    Seq::new(
        3 * row.len(),
        |k: int|
            if k % 3 == 0 {
                absorb_op("claim_dotp_row"@, le_bytes(row[k / 3]@, 8))
            } else if k % 3 == 1 {
                absorb_op("claim_dotp_col"@, le_bytes(col[k / 3]@, 8))
            } else {
                absorb_op("claim_dotp_val"@, le_bytes(val[k / 3]@, 8))
            },
    )
}

/// The record at the start of layer `i`'s sumcheck, from the layer's start `h`.
pub open spec fn pc_pre_cubic(h: History, nc: nat, nd: nat, layers: nat, i: nat) -> History {
    h + squeezes(coeff_label(), pc_count(nc, nd, layers, i))
}

/// The record just before layer `i`'s challenge is drawn.
pub open spec fn pc_pre_r(
    h: History,
    proof: ProductCircuitEvalProof,
    nc: nat,
    nd: nat,
    layers: nat,
    i: nat,
) -> History {
    let layer = proof.layers_proof@[i as int];
    let d = proof.claim_dotp;
    let c = cubic_post(pc_pre_cubic(h, nc, nd, layers, i), layer.polys@, i) + lr_ops(
        layer.claim_prod_left@,
        layer.claim_prod_right@,
    );
    if i == layers - 1 {
        c + dotp_ops(d.row@, d.col@, d.val@)
    } else {
        c
    }
}

/// The record at the start of layer `i`.
pub open spec fn pc_hist(
    h: History,
    proof: ProductCircuitEvalProof,
    nc: nat,
    nd: nat,
    layers: nat,
    i: nat,
) -> History
    decreases i,
{
    if i == 0 {
        h
    } else {
        pc_pre_r(pc_hist(h, proof, nc, nd, layers, (i - 1) as nat), proof, nc, nd, layers, (i - 1) as nat).push(
            squeeze_op("challenge_r_layer"@, CHALLENGE_BYTES as nat),
        )
    }
}

/// The combining coefficients of every layer.
pub open spec fn pc_coeffss(h: History, proof: ProductCircuitEvalProof, nc: nat, nd: nat, layers: nat) -> Seq<Seq<Fr>> {
    Seq::new(
        layers,
        |i: int| pc_coeffs(pc_hist(h, proof, nc, nd, layers, i as nat), pc_count(nc, nd, layers, i as nat)),
    )
}

/// The sumcheck challenges of every layer.
pub open spec fn pc_rss(h: History, proof: ProductCircuitEvalProof, nc: nat, nd: nat, layers: nat) -> Seq<Seq<Fr>> {
    Seq::new(
        layers,
        |i: int| cubic_rs(
            pc_pre_cubic(pc_hist(h, proof, nc, nd, layers, i as nat), nc, nd, layers, i as nat),
            proof.layers_proof@[i].polys@,
        ),
    )
}

/// The layer challenges.
pub open spec fn pc_r_layers(h: History, proof: ProductCircuitEvalProof, nc: nat, nd: nat, layers: nat) -> Seq<Fr> {
    Seq::new(
        layers,
        |i: int| fr_of(challenge_scalar_of(
            pc_pre_r(pc_hist(h, proof, nc, nd, layers, i as nat), proof, nc, nd, layers, i as nat),
            "challenge_r_layer"@,
        )),
    )
}

/// Absorbs each pair of a layer's left and right claims.
fn append_lr(t: &mut ProofTranscript, left: &Vec<Fr>, right: &Vec<Fr>)
    requires
        left@.len() == right@.len(),
    ensures
        final(t).history() == old(t).history() + lr_ops(left@, right@),
{
    let ghost h = t.history();
    let mut p: usize = 0;
    while p < left.len()
        invariant
            p <= left@.len(),
            left@.len() == right@.len(),
            t.history() == h + lr_ops(left@.subrange(0, p as int), right@.subrange(0, p as int)),
        decreases left@.len() - p,
    {
        append_scalar(t, "claim_prod_left", &left[p]);
        append_scalar(t, "claim_prod_right", &right[p]);
        p = p + 1;
        assert(t.history() =~= h + lr_ops(left@.subrange(0, p as int), right@.subrange(0, p as int)));
    }
    assert(left@.subrange(0, p as int) =~= left@);
    assert(right@.subrange(0, p as int) =~= right@);
}

/// Absorbs each dot-product claim: row, column and value in turn.
fn append_dotp(t: &mut ProofTranscript, d: &DotpClaims)
    requires
        d.col@.len() == d.row@.len(),
        d.val@.len() == d.row@.len(),
    ensures
        final(t).history() == old(t).history() + dotp_ops(d.row@, d.col@, d.val@),
{
    let ghost h = t.history();
    let mut q: usize = 0;
    while q < d.row.len()
        invariant
            q <= d.row@.len(),
            d.col@.len() == d.row@.len(),
            d.val@.len() == d.row@.len(),
            t.history() == h + dotp_ops(
                d.row@.subrange(0, q as int),
                d.col@.subrange(0, q as int),
                d.val@.subrange(0, q as int),
            ),
        decreases d.row@.len() - q,
    {
        append_scalar(t, "claim_dotp_row", &d.row[q]);
        append_scalar(t, "claim_dotp_col", &d.col[q]);
        append_scalar(t, "claim_dotp_val", &d.val[q]);
        q = q + 1;
        assert(t.history() =~= h + dotp_ops(
            d.row@.subrange(0, q as int),
            d.col@.subrange(0, q as int),
            d.val@.subrange(0, q as int),
        ));
    }
    assert(d.row@.subrange(0, q as int) =~= d.row@);
    assert(d.col@.subrange(0, q as int) =~= d.col@);
    assert(d.val@.subrange(0, q as int) =~= d.val@);
}

/// Each product claim on the line through its halves at `r`.
pub fn reduce_claims(left: &Vec<Fr>, right: &Vec<Fr>, r: &Fr) -> (next: Vec<Fr>)
    requires
        left@.len() == right@.len(),
    ensures
        next@.len() == left@.len(),
        forall|q: int| 0 <= q < next@.len() ==> (#[trigger] next@[q]) == fr_of(lerp(left@[q]@, right@[q]@, r@)),
        forall|q: int| 0 <= q < next@.len() ==> (#[trigger] next@[q])@ == lerp(left@[q]@, right@[q]@, r@),
{
    let mut next: Vec<Fr> = Vec::new();
    let mut p: usize = 0;
    while p < left.len()
        invariant
            p <= left@.len(),
            left@.len() == right@.len(),
            next@.len() == p,
            forall|q: int| 0 <= q < p ==> (#[trigger] next@[q]) == fr_of(lerp(left@[q]@, right@[q]@, r@)),
            forall|q: int| 0 <= q < p ==> (#[trigger] next@[q])@ == lerp(left@[q]@, right@[q]@, r@),
        decreases left@.len() - p,
    {
        let v = left[p].add(&r.mul(&right[p].sub(&left[p])));
        v.check_canonical();
        next.push(v);
        p = p + 1;
    }
    next
}

/// Each pair of dot-product claims (row, column, value) on the line
/// through it at `r`.
pub fn reduce_dotp(d: &DotpClaims, r: &Fr) -> (out: Vec<Fr>)
    requires
        d.col@.len() == d.row@.len(),
        d.val@.len() == d.row@.len(),
    ensures
        out@.len() == 3 * (d.row@.len() / 2),
        forall|q: int|
            0 <= q < d.row@.len() / 2 ==> {
                &&& (#[trigger] out@[3 * q]) == fr_of(lerp(d.row@[2 * q]@, d.row@[2 * q + 1]@, r@))
                &&& out@[3 * q + 1] == fr_of(lerp(d.col@[2 * q]@, d.col@[2 * q + 1]@, r@))
                &&& out@[3 * q + 2] == fr_of(lerp(d.val@[2 * q]@, d.val@[2 * q + 1]@, r@))
                &&& out@[3 * q]@ == lerp(d.row@[2 * q]@, d.row@[2 * q + 1]@, r@)
                &&& out@[3 * q + 1]@ == lerp(d.col@[2 * q]@, d.col@[2 * q + 1]@, r@)
                &&& out@[3 * q + 2]@ == lerp(d.val@[2 * q]@, d.val@[2 * q + 1]@, r@)
            },
{
    let mut out: Vec<Fr> = Vec::new();
    let n = d.row.len();
    let half = n / 2;
    let mut q: usize = 0;
    while q < half
        invariant
            n == d.row@.len(),
            half == n / 2,
            q <= half,
            d.col@.len() == d.row@.len(),
            d.val@.len() == d.row@.len(),
            out@.len() == 3 * q,
            forall|k: int|
                0 <= k < q ==> {
                    &&& (#[trigger] out@[3 * k]) == fr_of(lerp(d.row@[2 * k]@, d.row@[2 * k + 1]@, r@))
                    &&& out@[3 * k + 1] == fr_of(lerp(d.col@[2 * k]@, d.col@[2 * k + 1]@, r@))
                    &&& out@[3 * k + 2] == fr_of(lerp(d.val@[2 * k]@, d.val@[2 * k + 1]@, r@))
                    &&& out@[3 * k]@ == lerp(d.row@[2 * k]@, d.row@[2 * k + 1]@, r@)
                    &&& out@[3 * k + 1]@ == lerp(d.col@[2 * k]@, d.col@[2 * k + 1]@, r@)
                    &&& out@[3 * k + 2]@ == lerp(d.val@[2 * k]@, d.val@[2 * k + 1]@, r@)
                },
        decreases half - q,
    {
        let a = d.row[2 * q].add(&r.mul(&d.row[2 * q + 1].sub(&d.row[2 * q])));
        let b = d.col[2 * q].add(&r.mul(&d.col[2 * q + 1].sub(&d.col[2 * q])));
        let c = d.val[2 * q].add(&r.mul(&d.val[2 * q + 1].sub(&d.val[2 * q])));
        a.check_canonical();
        b.check_canonical();
        c.check_canonical();
        let ghost before = out@;
        out.push(a);
        out.push(b);
        out.push(c);
        assert forall|k: int| 0 <= k < q + 1 implies {
            &&& (#[trigger] out@[3 * k]) == fr_of(lerp(d.row@[2 * k]@, d.row@[2 * k + 1]@, r@))
            &&& out@[3 * k + 1] == fr_of(lerp(d.col@[2 * k]@, d.col@[2 * k + 1]@, r@))
            &&& out@[3 * k + 2] == fr_of(lerp(d.val@[2 * k]@, d.val@[2 * k + 1]@, r@))
            &&& out@[3 * k]@ == lerp(d.row@[2 * k]@, d.row@[2 * k + 1]@, r@)
            &&& out@[3 * k + 1]@ == lerp(d.col@[2 * k]@, d.col@[2 * k + 1]@, r@)
            &&& out@[3 * k + 2]@ == lerp(d.val@[2 * k]@, d.val@[2 * k + 1]@, r@)
        } by {
            if k < q {
                assert(out@[3 * k] == before[3 * k]);
                assert(out@[3 * k + 1] == before[3 * k + 1]);
                assert(out@[3 * k + 2] == before[3 * k + 2]);
            } else {
                assert(out@[3 * k] == a);
                assert(out@[3 * k + 1] == b);
                assert(out@[3 * k + 2] == c);
            }
        }
        q = q + 1;
    }
    out
}

/// Verifies a product-circuit proof for the grand products `claims_prod`
/// over `n` leaves (and, on the last layer, the dot-product claims
/// `claims_dotp`), layer by layer from the top.
#[verifier::spinoff_prover]
#[verifier::rlimit(100)]
pub fn product_circuit_eval_verify(
    proof: &ProductCircuitEvalProof,
    claims_prod: &Vec<Fr>,
    claims_dotp: &Vec<Fr>,
    n: usize,
    transcript: &mut ProofTranscript,
) -> (res: Result<CircuitClaims, SynthesisError>)
    ensures
        (res is Err && res->Err_0 == SynthesisError::ParameterMismatch) <==> !is_pow2(n as nat),
        (res is Err && res->Err_0 == SynthesisError::MalformedProof) <==> (is_pow2(n as nat)
            && !circuit_shape_ok(*proof, claims_prod@.len(), claims_dotp@.len(), log2_of(n as nat))),
        res is Err ==> res->Err_0 != SynthesisError::MissingAssignment,
        is_pow2(n as nat) && log2_of(n as nat) == 0 && circuit_shape_ok(
            *proof,
            claims_prod@.len(),
            claims_dotp@.len(),
            0,
        ) ==> res is Ok && res->Ok_0.claims@ == claims_prod@,
        res is Ok ==> {
            let out = res->Ok_0;
            let layers = log2_of(n as nat);
            &&& out.claims@.len() == claims_prod@.len()
            &&& out.rands@.len() == layers
        },
        is_pow2(n as nat) && circuit_shape_ok(
            *proof,
            claims_prod@.len(),
            claims_dotp@.len(),
            log2_of(n as nat),
        ) ==> {
            let layers = log2_of(n as nat);
            let h = old(transcript).history();
            let nc = claims_prod@.len();
            let nd = claims_dotp@.len();
            let coeffss = pc_coeffss(h, *proof, nc, nd, layers);
            let rss = pc_rss(h, *proof, nc, nd, layers);
            let r_layers = pc_r_layers(h, *proof, nc, nd, layers);
            &&& (res is Ok <==> circuit_accepted(
                *proof,
                claims_prod@,
                claims_dotp@,
                layers,
                coeffss,
                rss,
                r_layers,
            ))
            &&& res is Err ==> res->Err_0 == SynthesisError::CryptographicCheckFailed
            &&& res is Ok ==> circuit_output(res->Ok_0, *proof, claims_prod@, layers, rss, r_layers)
                && final(transcript).history() == pc_hist(h, *proof, nc, nd, layers, layers)
        },
{
    let layers = match log2_exact(n) {
        None => {
            return Err(SynthesisError::ParameterMismatch);
        },
        Some(k) => k,
    };
    let num_claims = claims_prod.len();
    let num_dotp = claims_dotp.len();
    if !shape_check(proof, num_claims, num_dotp, layers) {
        return Err(SynthesisError::MalformedProof);
    }
    let dotp = &proof.claim_dotp;
    let mut claims_to_verify = claims_prod.clone();
    let mut claims_out_dotp: Vec<Fr> = Vec::new();
    let mut rands: Vec<Fr> = Vec::new();
    let ghost mut coeffss: Seq<Seq<Fr>> = Seq::empty();
    let ghost mut rss: Seq<Seq<Fr>> = Seq::empty();
    let ghost mut r_layers: Seq<Fr> = Seq::empty();
    let ghost h0 = transcript.history();
    let ghost nc = num_claims as nat;
    let ghost nd = num_dotp as nat;
    let ghost lay = layers as nat;
    proof {
        assert(claims_to_verify@ == claims_prod@);
        assert(rands@ =~= layer_point(r_layers, rss, 0));
    }
    let mut i: usize = 0;
    while i < layers
        invariant
            i <= layers,
            layers == log2_of(n as nat),
            is_pow2(n as nat),
            num_claims == claims_prod@.len(),
            num_dotp == claims_dotp@.len(),
            *dotp == proof.claim_dotp,
            circuit_shape_ok(*proof, num_claims as nat, num_dotp as nat, layers as nat),
            claims_to_verify@.len() == num_claims,
            coeffss.len() == i,
            rss.len() == i,
            r_layers.len() == i,
            i == 0 ==> claims_to_verify@ == claims_prod@,
            fr_views(claims_to_verify@) == layer_claims(*proof, claims_prod@, r_layers, i as int),
            i > 0 ==> claims_to_verify@ == exact_claims(*proof, claims_prod@, r_layers, i as int),
            rands@ == layer_point(r_layers, rss, i as int),
            rands@.len() == i,
            claims_out_dotp@.len() == if i == layers && layers > 0 { 3 * (num_dotp / 2) } else { 0 },
            i == layers && layers > 0 ==> forall|q: int|
                0 <= q < num_dotp / 2 ==> {
                    &&& (#[trigger] claims_out_dotp@[3 * q])@ == lerp(
                        dotp.row@[2 * q]@,
                        dotp.row@[2 * q + 1]@,
                        r_layers[layers - 1]@,
                    )
                    &&& claims_out_dotp@[3 * q + 1]@ == lerp(
                        dotp.col@[2 * q]@,
                        dotp.col@[2 * q + 1]@,
                        r_layers[layers - 1]@,
                    )
                    &&& claims_out_dotp@[3 * q + 2]@ == lerp(
                        dotp.val@[2 * q]@,
                        dotp.val@[2 * q + 1]@,
                        r_layers[layers - 1]@,
                    )
                },
            h0 == old(transcript).history(),
            nc == num_claims,
            nd == num_dotp,
            lay == layers,
            transcript.history() == pc_hist(h0, *proof, nc, nd, lay, i as nat),
            i == layers && layers > 0 ==> forall|q: int|
                0 <= q < num_dotp / 2 ==> {
                    &&& (#[trigger] claims_out_dotp@[3 * q]) == fr_of(lerp(dotp.row@[2 * q]@, dotp.row@[2 * q + 1]@, r_layers[layers - 1]@))
                    &&& claims_out_dotp@[3 * q + 1] == fr_of(lerp(dotp.col@[2 * q]@, dotp.col@[2 * q + 1]@, r_layers[layers - 1]@))
                    &&& claims_out_dotp@[3 * q + 2] == fr_of(lerp(dotp.val@[2 * q]@, dotp.val@[2 * q + 1]@, r_layers[layers - 1]@))
                },
            forall|k: int| 0 <= k < i ==> coeffss[k] == #[trigger] pc_coeffss(h0, *proof, nc, nd, lay)[k],
            forall|k: int| 0 <= k < i ==> rss[k] == #[trigger] pc_rss(h0, *proof, nc, nd, lay)[k],
            forall|k: int| 0 <= k < i ==> r_layers[k] == #[trigger] pc_r_layers(h0, *proof, nc, nd, lay)[k],
            forall|k: int|
                0 <= k < i ==> #[trigger] layer_ok(
                    *proof,
                    claims_prod@,
                    claims_dotp@,
                    layers as nat,
                    coeffss,
                    rss,
                    r_layers,
                    k,
                ),
        decreases layers - i,
    {
        let layer = &proof.layers_proof[i];
        let last = i + 1 == layers;
        let mut claims_in = claims_to_verify.clone();
        proof {
            assert(claims_in@ == claims_to_verify@);
        }
        if last {
            let mut q: usize = 0;
            while q < num_dotp
                invariant
                    q <= num_dotp,
                    num_dotp == claims_dotp@.len(),
                    claims_in@ == claims_to_verify@ + claims_dotp@.subrange(0, q as int),
                decreases num_dotp - q,
            {
                claims_in.push(claims_dotp[q]);
                q = q + 1;
                assert(claims_in@ =~= claims_to_verify@ + claims_dotp@.subrange(0, q as int));
            }
            assert(claims_dotp@.subrange(0, num_dotp as int) =~= claims_dotp@);
        }
        proof {
            let inputs = layer_inputs(*proof, claims_prod@, claims_dotp@, layers as nat, r_layers, i as int);
            if last {
                assert(fr_views(claims_in@) =~= inputs);
            } else {
                assert(fr_views(claims_in@) =~= inputs);
            }
        }
        let count = claims_in.len();
        let ghost hi = transcript.history();
        let coeffs = challenge_scalars(transcript, "rand_coeffs_next_layer", count);
        proof {
            assert(count == pc_count(nc, nd, lay, i as nat));
            assert(coeffs@ =~= pc_coeffs(hi, count as nat));
            assert(coeffs@ == pc_coeffss(h0, *proof, nc, nd, lay)[i as int]);
        }
        let claim = inner_product(&claims_in, &coeffs, count);
        proof {
            lemma_combine_views(claims_in@, coeffs@, count as nat);
        }
        let (r, _claim_final) = match sum_check_cubic_verify(&layer.polys, i, &claim, transcript) {
            Ok(t) => t,
            Err(_) => {
                proof {
                    assert(!layer_ok(*proof, claims_prod@, claims_dotp@, lay, pc_coeffss(h0, *proof, nc, nd, lay), pc_rss(h0, *proof, nc, nd, lay), pc_r_layers(h0, *proof, nc, nd, lay), i as int));
                }
                return Err(SynthesisError::CryptographicCheckFailed);
            },
        };
        proof {
            assert(r@ == pc_rss(h0, *proof, nc, nd, lay)[i as int]);
        }
        let left = &layer.claim_prod_left;
        let right = &layer.claim_prod_right;
        append_lr(transcript, left, right);
        if last {
            append_dotp(transcript, dotp);
        }
        proof {
            assert(transcript.history() == pc_pre_r(hi, *proof, nc, nd, lay, i as nat));
        }
        let checked = layer_check(layer, dotp, last, &claims_in, &coeffs, &r, &rands);
        if checked.is_err() {
            proof {
                assert(!layer_ok(*proof, claims_prod@, claims_dotp@, lay, pc_coeffss(h0, *proof, nc, nd, lay), pc_rss(h0, *proof, nc, nd, lay), pc_r_layers(h0, *proof, nc, nd, lay), i as int));
            }
            return Err(SynthesisError::CryptographicCheckFailed);
        }
        let r_layer = challenge_scalar(transcript, "challenge_r_layer");
        proof {
            assert(r_layer == pc_r_layers(h0, *proof, nc, nd, lay)[i as int]);
            assert(transcript.history() == pc_hist(h0, *proof, nc, nd, lay, (i + 1) as nat));
        }
        let ghost old_coeffss = coeffss;
        let ghost old_rss = rss;
        let ghost old_r_layers = r_layers;
        proof {
            coeffss = coeffss.push(coeffs@);
            rss = rss.push(r@);
            r_layers = r_layers.push(r_layer);
            assert(layer_inputs(*proof, claims_prod@, claims_dotp@, layers as nat, r_layers, i as int)
                =~= layer_inputs(*proof, claims_prod@, claims_dotp@, layers as nat, old_r_layers, i as int));
            assert(layer_point(r_layers, rss, i as int) =~= layer_point(old_r_layers, old_rss, i as int));
            assert(layer_ok(*proof, claims_prod@, claims_dotp@, layers as nat, coeffss, rss, r_layers, i as int));
            assert forall|k: int| 0 <= k < i + 1 implies #[trigger] layer_ok(
                *proof,
                claims_prod@,
                claims_dotp@,
                layers as nat,
                coeffss,
                rss,
                r_layers,
                k,
            ) by {
                if k < i {
                    assert(layer_ok(*proof, claims_prod@, claims_dotp@, layers as nat, old_coeffss, old_rss, old_r_layers, k));
                    assert(layer_inputs(*proof, claims_prod@, claims_dotp@, layers as nat, r_layers, k)
                        =~= layer_inputs(*proof, claims_prod@, claims_dotp@, layers as nat, old_r_layers, k));
                    assert(layer_point(r_layers, rss, k) =~= layer_point(old_r_layers, old_rss, k));
                }
            }
        }
        let next = reduce_claims(left, right, &r_layer);
        claims_to_verify = next;
        proof {
            assert(fr_views(claims_to_verify@) =~= layer_claims(*proof, claims_prod@, r_layers, i + 1));
            assert(claims_to_verify@ =~= exact_claims(*proof, claims_prod@, r_layers, i + 1));
        }
        if last {
            claims_out_dotp = reduce_dotp(dotp, &r_layer);
        }
        let mut next_rands: Vec<Fr> = Vec::new();
        next_rands.push(r_layer);
        let mut q: usize = 0;
        while q < r.len()
            invariant
                q <= r@.len(),
                next_rands@ == seq![r_layer] + r@.subrange(0, q as int),
            decreases r@.len() - q,
        {
            next_rands.push(r[q]);
            q = q + 1;
            assert(next_rands@ =~= seq![r_layer] + r@.subrange(0, q as int));
        }
        proof {
            assert(r@.subrange(0, r@.len() as int) =~= r@);
            assert(next_rands@ =~= layer_point(r_layers, rss, i + 1));
        }
        rands = next_rands;
        proof {
            if last {
                assert(r_layers[(layers - 1) as int] == r_layer);
                assert forall|q: int| 0 <= q < num_dotp / 2 implies {
                    &&& (#[trigger] claims_out_dotp@[3 * q])@ == lerp(
                        dotp.row@[2 * q]@,
                        dotp.row@[2 * q + 1]@,
                        r_layers[layers - 1]@,
                    )
                    &&& claims_out_dotp@[3 * q + 1]@ == lerp(
                        dotp.col@[2 * q]@,
                        dotp.col@[2 * q + 1]@,
                        r_layers[layers - 1]@,
                    )
                    &&& claims_out_dotp@[3 * q + 2]@ == lerp(
                        dotp.val@[2 * q]@,
                        dotp.val@[2 * q + 1]@,
                        r_layers[layers - 1]@,
                    )
                } by {}
                assert forall|q: int| 0 <= q < num_dotp / 2 implies {
                    &&& (#[trigger] claims_out_dotp@[3 * q]) == fr_of(lerp(dotp.row@[2 * q]@, dotp.row@[2 * q + 1]@, r_layers[layers - 1]@))
                    &&& claims_out_dotp@[3 * q + 1] == fr_of(lerp(dotp.col@[2 * q]@, dotp.col@[2 * q + 1]@, r_layers[layers - 1]@))
                    &&& claims_out_dotp@[3 * q + 2] == fr_of(lerp(dotp.val@[2 * q]@, dotp.val@[2 * q + 1]@, r_layers[layers - 1]@))
                } by {}
            }
        }
        i = i + 1;
    }
    let out = CircuitClaims { claims: claims_to_verify, claims_dotp: claims_out_dotp, rands };
    proof {
        assert(coeffss =~= pc_coeffss(h0, *proof, nc, nd, lay));
        assert(rss =~= pc_rss(h0, *proof, nc, nd, lay));
        assert(r_layers =~= pc_r_layers(h0, *proof, nc, nd, lay));
        assert(circuit_accepted(*proof, claims_prod@, claims_dotp@, layers as nat, coeffss, rss, r_layers));
        assert(circuit_output(out, *proof, claims_prod@, layers as nat, rss, r_layers));
    }
    Ok(out)
}

} // verus!
