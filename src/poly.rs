use crate::errors::SynthesisError;
use crate::field::{fadd, fmul, fsub, Fr};
use vstd::prelude::*;

verus! {

/// `2^n`.
pub open spec fn two_pow(n: nat) -> nat
    decreases n,
{
    if n == 0 {
        1
    } else {
        2 * two_pow((n - 1) as nat)
    }
}

pub proof fn lemma_two_pow_monotone(a: nat, b: nat)
    requires
        a <= b,
    ensures
        1 <= two_pow(a) <= two_pow(b),
    decreases b,
{
    if b > a {
        lemma_two_pow_monotone(a, (b - 1) as nat);
    } else if a > 0 {
        lemma_two_pow_monotone((a - 1) as nat, (a - 1) as nat);
    }
}

/// `2^k`, or `None` where it does not fit in a `usize`.
pub fn pow2_checked(k: usize) -> (r: Option<usize>)
    ensures
        r is Some <==> two_pow(k as nat) <= usize::MAX,
        r is Some ==> r->0 == two_pow(k as nat),
{
    let mut v: usize = 1;
    let mut i: usize = 0;
    while i < k
        invariant
            i <= k,
            v == two_pow(i as nat),
        decreases k - i,
    {
        if v > usize::MAX / 2 {
            proof {
                lemma_two_pow_monotone((i + 1) as nat, k as nat);
            }
            return None;
        }
        v = v * 2;
        i = i + 1;
    }
    Some(v)
}

/// The multilinear equality polynomial in one variable: `x*y + (1-x)*(1-y)`.
pub open spec fn feq(x: nat, y: nat) -> nat {
    fadd(fmul(x, y), fmul(fsub(1, x), fsub(1, y)))
}

/// `prod_i eq(a_i, b_i)` over two points of the same dimension.
pub open spec fn eq_prod(a: Seq<Fr>, b: Seq<Fr>) -> nat
    decreases a.len(),
{
    if a.len() == 0 {
        1
    } else {
        fmul(eq_prod(a.drop_last(), b.drop_last()), feq(a.last()@, b.last()@))
    }
}

/// The Lagrange basis polynomial of the hypercube point `i`, at `r`; the
/// first coordinate of `r` is the most significant bit of `i`.
pub open spec fn chi(r: Seq<Fr>, i: nat) -> nat
    decreases r.len(),
{
    if r.len() == 0 {
        1
    } else {
        fmul(chi(r.drop_last(), i / 2), if i % 2 == 1 { r.last()@ } else { fsub(1, r.last()@) })
    }
}

/// `sum_{i<n} a_i * chi(r, i)`.
pub open spec fn mle_upto(a: Seq<Fr>, r: Seq<Fr>, n: nat) -> nat
    decreases n,
{
    if n == 0 {
        0
    } else {
        fadd(mle_upto(a, r, (n - 1) as nat), fmul(a[n - 1]@, chi(r, (n - 1) as nat)))
    }
}

/// The multilinear extension of the table `a` (zero beyond its end) at `r`.
pub open spec fn mle(a: Seq<Fr>, r: Seq<Fr>) -> nat {
    mle_upto(a, r, a.len())
}

/// `sum_{i<n} a_i * b_i`.
pub open spec fn inner_upto(a: Seq<Fr>, b: Seq<Fr>, n: nat) -> nat
    decreases n,
{
    if n == 0 {
        0
    } else {
        fadd(inner_upto(a, b, (n - 1) as nat), fmul(a[n - 1]@, b[n - 1]@))
    }
}

/// The sum of the first `n` elements.
pub open spec fn sum_upto(a: Seq<Fr>, n: nat) -> nat
    decreases n,
{
    if n == 0 {
        0
    } else {
        fadd(sum_upto(a, (n - 1) as nat), a[n - 1]@)
    }
}

/// The product of the first `n` elements.
pub open spec fn prod_upto(a: Seq<Fr>, n: nat) -> nat
    decreases n,
{
    if n == 0 {
        1
    } else {
        fmul(prod_upto(a, (n - 1) as nat), a[n - 1]@)
    }
}

/// A univariate polynomial, coefficients from the constant term up, at `x`.
pub open spec fn horner(c: Seq<Fr>, x: nat) -> nat
    decreases c.len(),
{
    if c.len() == 0 {
        0
    } else {
        fadd(c[0]@, fmul(x, horner(c.drop_first(), x)))
    }
}

/// `a + r * (b - a)`: the line through `a` and `b` at `r`.
pub open spec fn lerp(a: nat, b: nat, r: nat) -> nat {
    fadd(a, fmul(r, fsub(b, a)))
}

/// One entry of a sparse matrix.
#[derive(Clone, Copy, Debug, PartialEq, Eq, Structural)]
pub struct MatrixEntry {
    pub row: usize,
    pub col: usize,
    pub val: Fr,
}

/// `sum_k val_k * chi(rx, row_k) * chi(ry, col_k)` over the first `n` entries.
pub open spec fn sparse_mle_upto(m: Seq<MatrixEntry>, rx: Seq<Fr>, ry: Seq<Fr>, n: nat) -> nat
    decreases n,
{
    if n == 0 {
        0
    } else {
        fadd(
            sparse_mle_upto(m, rx, ry, (n - 1) as nat),
            fmul(fmul(m[n - 1].val@, chi(rx, m[n - 1].row as nat)), chi(ry, m[n - 1].col as nat)),
        )
    }
}

/// Whether every entry lies inside the `2^|rx|` by `2^|ry|` grid.
pub open spec fn entries_in_range(m: Seq<MatrixEntry>, rx_len: nat, ry_len: nat) -> bool {
    forall|k: int|
        0 <= k < m.len() ==> (#[trigger] m[k]).row < two_pow(rx_len) && m[k].col < two_pow(
            ry_len,
        )
}

/// `eq(x, y)` for two points of the same dimension.
pub fn eval_eq_x_y(x: &Vec<Fr>, y: &Vec<Fr>) -> (r: Fr)
    requires
        x@.len() == y@.len(),
    ensures
        r@ == eq_prod(x@, y@),
{
    let one = Fr::one();
    let mut acc = Fr::one();
    let mut i: usize = 0;
    while i < x.len()
        invariant
            x@.len() == y@.len(),
            i <= x@.len(),
            one@ == 1,
            acc@ == eq_prod(x@.subrange(0, i as int), y@.subrange(0, i as int)),
        decreases x@.len() - i,
    {
        let a = x[i].mul(&y[i]);
        let b = one.sub(&x[i]).mul(&one.sub(&y[i]));
        let e = a.add(&b);
        proof {
            let xs = x@.subrange(0, i + 1);
            let ys = y@.subrange(0, i + 1);
            assert(xs.drop_last() =~= x@.subrange(0, i as int));
            assert(ys.drop_last() =~= y@.subrange(0, i as int));
        }
        acc = acc.mul(&e);
        i = i + 1;
    }
    assert(x@.subrange(0, i as int) =~= x@);
    assert(y@.subrange(0, i as int) =~= y@);
    acc
}

/// The table of `chi(r, i)` for every `i < 2^|r|`.
pub fn eval_eq(r: &Vec<Fr>) -> (t: Vec<Fr>)
    requires
        two_pow(r@.len()) <= usize::MAX,
    ensures
        t@.len() == two_pow(r@.len()),
        forall|i: int| 0 <= i < t@.len() ==> (#[trigger] t@[i])@ == chi(r@, i as nat),
{
    let one = Fr::one();
    let mut t: Vec<Fr> = Vec::new();
    t.push(Fr::one());
    let mut j: usize = 0;
    proof {
        assert(r@.subrange(0, 0).len() == 0);
    }
    while j < r.len()
        invariant
            j <= r@.len(),
            one@ == 1,
            two_pow(r@.len()) <= usize::MAX,
            t@.len() == two_pow(j as nat),
            forall|i: int|
                0 <= i < t@.len() ==> (#[trigger] t@[i])@ == chi(r@.subrange(0, j as int), i as nat),
        decreases r@.len() - j,
    {
        proof {
            lemma_two_pow_monotone((j + 1) as nat, r@.len());
        }
        let rj = r[j];
        let not_rj = one.sub(&rj);
        let ghost pre = r@.subrange(0, j as int);
        let ghost post = r@.subrange(0, j + 1);
        proof {
            assert(post.drop_last() =~= pre);
            assert(post.last() == rj);
        }
        let mut next: Vec<Fr> = Vec::new();
        let mut k: usize = 0;
        while k < t.len()
            invariant
                k <= t@.len(),
                t@.len() == two_pow(j as nat),
                2 * t@.len() <= usize::MAX,
                next@.len() == 2 * k,
                post.len() == j + 1,
                post.drop_last() == pre,
                post.last() == rj,
                not_rj@ == fsub(1, rj@),
                forall|i: int| 0 <= i < t@.len() ==> (#[trigger] t@[i])@ == chi(pre, i as nat),
                forall|i: int| 0 <= i < next@.len() ==> (#[trigger] next@[i])@ == chi(post, i as nat),
            decreases t@.len() - k,
        {
            let a = t[k].mul(&not_rj);
            let b = t[k].mul(&rj);
            proof {
                assert((2 * k) as nat / 2 == k as nat);
                assert((2 * k + 1) as nat / 2 == k as nat);
            }
            next.push(a);
            next.push(b);
            proof {
                assert(chi(post, (2 * k) as nat) == fmul(chi(pre, k as nat), fsub(1, rj@)));
                assert(chi(post, (2 * k + 1) as nat) == fmul(chi(pre, k as nat), rj@));
            }
            k = k + 1;
        }
        t = next;
        j = j + 1;
    }
    assert(r@.subrange(0, j as int) =~= r@);
    t
}

/// The multilinear extension of a dense table at `r`.
pub fn evaluate_value(a: &Vec<Fr>, r: &Vec<Fr>) -> (v: Fr)
    requires
        two_pow(r@.len()) <= usize::MAX,
        a@.len() <= two_pow(r@.len()),
    ensures
        v@ == mle(a@, r@),
{
    let t = eval_eq(r);
    let mut acc = Fr::zero();
    let mut i: usize = 0;
    while i < a.len()
        invariant
            i <= a@.len(),
            a@.len() <= t@.len(),
            forall|k: int| 0 <= k < t@.len() ==> (#[trigger] t@[k])@ == chi(r@, k as nat),
            acc@ == mle_upto(a@, r@, i as nat),
        decreases a@.len() - i,
    {
        acc = acc.add(&a[i].mul(&t[i]));
        i = i + 1;
    }
    acc
}

/// `sum_{i<n} a_i * b_i`.
pub fn inner_product(a: &Vec<Fr>, b: &Vec<Fr>, n: usize) -> (v: Fr)
    requires
        n <= a@.len(),
        n <= b@.len(),
    ensures
        v@ == inner_upto(a@, b@, n as nat),
{
    let mut acc = Fr::zero();
    let mut i: usize = 0;
    while i < n
        invariant
            i <= n,
            n <= a@.len(),
            n <= b@.len(),
            acc@ == inner_upto(a@, b@, i as nat),
        decreases n - i,
    {
        acc = acc.add(&a[i].mul(&b[i]));
        i = i + 1;
    }
    acc
}

/// The product of all elements.
pub fn product(a: &Vec<Fr>) -> (v: Fr)
    ensures
        v@ == prod_upto(a@, a@.len()),
{
    let mut acc = Fr::one();
    let mut i: usize = 0;
    while i < a.len()
        invariant
            i <= a@.len(),
            acc@ == prod_upto(a@, i as nat),
        decreases a@.len() - i,
    {
        acc = acc.mul(&a[i]);
        i = i + 1;
    }
    acc
}

/// Fixes the lowest variable of a multilinear table to `r`, halving it.
pub fn bound_poly_var_bot(p: &Vec<Fr>, r: &Fr) -> (q: Vec<Fr>)
    ensures
        q@.len() == p@.len() / 2,
        forall|i: int|
            0 <= i < q@.len() ==> (#[trigger] q@[i])@ == lerp(p@[2 * i]@, p@[2 * i + 1]@, r@),
{
    let mut q: Vec<Fr> = Vec::new();
    let n = p.len();
    let half = n / 2;
    let mut i: usize = 0;
    while i < half
        invariant
            half == p@.len() / 2,
            p@.len() <= usize::MAX,
            i <= half,
            q@.len() == i,
            forall|k: int|
                0 <= k < q@.len() ==> (#[trigger] q@[k])@ == lerp(p@[2 * k]@, p@[2 * k + 1]@, r@),
        decreases half - i,
    {
        assert(2 * i + 1 < p@.len());
        let lo = p[2 * i];
        let hi = p[2 * i + 1];
        q.push(lo.add(&r.mul(&hi.sub(&lo))));
        i = i + 1;
    }
    q
}

/// A univariate polynomial given by its coefficients (constant term first), at `x`.
pub fn evaluate_poly(c: &Vec<Fr>, x: &Fr) -> (v: Fr)
    ensures
        v@ == horner(c@, x@),
{
    let mut acc = Fr::zero();
    let mut i: usize = c.len();
    assert(c@.subrange(i as int, c@.len() as int) =~= Seq::<Fr>::empty());
    while i > 0
        invariant
            i <= c@.len(),
            acc@ == horner(c@.subrange(i as int, c@.len() as int), x@),
        decreases i,
    {
        let ghost prev = c@.subrange(i as int, c@.len() as int);
        i = i - 1;
        proof {
            assert(c@.subrange(i as int, c@.len() as int).drop_first() =~= prev);
        }
        acc = c[i].add(&x.mul(&acc));
    }
    assert(c@.subrange(0, c@.len() as int) =~= c@);
    acc
}

/// The multilinear extension of a sparse matrix at `(rx, ry)`; an entry
/// outside the `2^|rx|` by `2^|ry|` grid is a mismatch between the matrix
/// and the point.
pub fn evaluate_mle(m: &Vec<MatrixEntry>, rx: &Vec<Fr>, ry: &Vec<Fr>) -> (v: Result<Fr, SynthesisError>)
    requires
        two_pow(rx@.len()) <= usize::MAX,
        two_pow(ry@.len()) <= usize::MAX,
    ensures
        v is Ok <==> entries_in_range(m@, rx@.len(), ry@.len()),
        v is Ok ==> v->Ok_0@ == sparse_mle_upto(m@, rx@, ry@, m@.len()),
        v is Err ==> v->Err_0 == SynthesisError::ParameterMismatch,
{
    let tx = eval_eq(rx);
    let ty = eval_eq(ry);
    let mut acc = Fr::zero();
    let mut k: usize = 0;
    while k < m.len()
        invariant
            k <= m@.len(),
            tx@.len() == two_pow(rx@.len()),
            ty@.len() == two_pow(ry@.len()),
            forall|i: int| 0 <= i < tx@.len() ==> (#[trigger] tx@[i])@ == chi(rx@, i as nat),
            forall|i: int| 0 <= i < ty@.len() ==> (#[trigger] ty@[i])@ == chi(ry@, i as nat),
            entries_in_range(m@.subrange(0, k as int), rx@.len(), ry@.len()),
            acc@ == sparse_mle_upto(m@, rx@, ry@, k as nat),
        decreases m@.len() - k,
    {
        let e = m[k];
        if e.row >= tx.len() || e.col >= ty.len() {
            return Err(SynthesisError::ParameterMismatch);
        }
        acc = acc.add(&e.val.mul(&tx[e.row]).mul(&ty[e.col]));
        k = k + 1;
        assert forall|j: int| 0 <= j < k implies (#[trigger] m@.subrange(0, k as int)[j]).row
            < two_pow(rx@.len()) && m@.subrange(0, k as int)[j].col < two_pow(ry@.len()) by {
            if j < k - 1 {
                assert(m@.subrange(0, k as int)[j] == m@.subrange(0, k - 1)[j]);
            }
        }
    }
    assert(m@.subrange(0, k as int) =~= m@);
    Ok(acc)
}

} // verus!
