use crate::codec::{le_bytes, le_value, lemma_le_bytes_len};
use crate::field::{lemma_fr_round_trip, Fr, FIELD_MODULUS};
use vstd::prelude::*;

verus! {

/// The encoding of a vector of scalars: each scalar's eight bytes in turn.
pub open spec fn scalars_bytes(v: Seq<Fr>) -> Seq<u8>
    decreases v.len(),
{
    if v.len() == 0 {
        Seq::empty()
    } else {
        scalars_bytes(v.drop_last()) + le_bytes(v.last()@, 8)
    }
}

/// The `i`-th eight-byte chunk of `b`.
pub open spec fn chunk(b: Seq<u8>, i: int) -> Seq<u8> {
    b.subrange(8 * i, 8 * i + 8)
}

/// Whether `b` is a whole number of canonical scalar encodings.
pub open spec fn scalars_decodable(b: Seq<u8>) -> bool {
    b.len() % 8 == 0 && forall|i: int|
        0 <= i < b.len() / 8 ==> le_value(#[trigger] chunk(b, i)) < FIELD_MODULUS
}

pub proof fn lemma_scalars_bytes_len(v: Seq<Fr>)
    ensures
        scalars_bytes(v).len() == 8 * v.len(),
    decreases v.len(),
{
    if v.len() > 0 {
        lemma_scalars_bytes_len(v.drop_last());
        lemma_le_bytes_len(v.last()@, 8);
    }
}

proof fn lemma_scalars_chunk(v: Seq<Fr>, i: int)
    requires
        0 <= i < v.len(),
    ensures
        chunk(scalars_bytes(v), i) == le_bytes(v[i]@, 8),
    decreases v.len(),
{
    lemma_scalars_bytes_len(v);
    let pre = v.drop_last();
    lemma_scalars_bytes_len(pre);
    lemma_le_bytes_len(v.last()@, 8);
    if i < v.len() - 1 {
        lemma_scalars_chunk(pre, i);
        assert(chunk(scalars_bytes(v), i) =~= chunk(scalars_bytes(pre), i));
    } else {
        assert(chunk(scalars_bytes(v), i) =~= le_bytes(v.last()@, 8));
    }
}

/// Encoding a vector of scalars and reading it back gives the same
/// scalars: the encoding is a whole number of canonical chunks, one per
/// scalar, each denoting that scalar.
pub proof fn lemma_scalars_round_trip(v: Seq<Fr>)
    ensures
        scalars_decodable(scalars_bytes(v)),
        scalars_bytes(v).len() / 8 == v.len(),
        forall|i: int| 0 <= i < v.len() ==> le_value(#[trigger] chunk(scalars_bytes(v), i)) == v[i]@,
{
    lemma_scalars_bytes_len(v);
    assert forall|i: int| 0 <= i < v.len() implies le_value(#[trigger] chunk(scalars_bytes(v), i))
        == v[i]@ && le_value(chunk(scalars_bytes(v), i)) < FIELD_MODULUS by {
        lemma_scalars_chunk(v, i);
        lemma_fr_round_trip(v[i]);
    }
}

/// Encodes a vector of scalars.
pub fn encode_scalars(v: &Vec<Fr>) -> (b: Vec<u8>)
    ensures
        b@ == scalars_bytes(v@),
{
    let mut b: Vec<u8> = Vec::new();
    let mut i: usize = 0;
    while i < v.len()
        invariant
            i <= v@.len(),
            b@ == scalars_bytes(v@.subrange(0, i as int)),
        decreases v@.len() - i,
    {
        let e = v[i].to_bytes();
        let ghost before = b@;
        let mut j: usize = 0;
        while j < e.len()
            invariant
                j <= e@.len(),
                b@ == before + e@.subrange(0, j as int),
            decreases e@.len() - j,
        {
            b.push(e[j]);
            j = j + 1;
            assert(b@ =~= before + e@.subrange(0, j as int));
        }
        assert(e@.subrange(0, j as int) =~= e@);
        assert(v@.subrange(0, i + 1).drop_last() =~= v@.subrange(0, i as int));
        i = i + 1;
    }
    assert(v@.subrange(0, i as int) =~= v@);
    b
}

/// Decodes a vector of scalars; `None` unless `b` is a whole number of
/// canonical encodings.
pub fn decode_scalars(b: &[u8]) -> (r: Option<Vec<Fr>>)
    ensures
        r is Some <==> scalars_decodable(b@),
        r is Some ==> r->0@.len() == b@.len() / 8 && forall|i: int|
            0 <= i < r->0@.len() ==> (#[trigger] r->0@[i])@ == le_value(chunk(b@, i)),
{
    if b.len() % 8 != 0 {
        return None;
    }
    let blen = b.len();
    let n = blen / 8;
    let mut out: Vec<Fr> = Vec::new();
    let mut i: usize = 0;
    while i < n
        invariant
            n == b@.len() / 8,
            blen == b@.len(),
            b@.len() % 8 == 0,
            i <= n,
            out@.len() == i,
            forall|k: int| 0 <= k < i ==> le_value(#[trigger] chunk(b@, k)) < FIELD_MODULUS,
            forall|k: int| 0 <= k < i ==> (#[trigger] out@[k])@ == le_value(chunk(b@, k)),
        decreases n - i,
    {
        let mut c: Vec<u8> = Vec::new();
        let mut j: usize = 0;
        while j < 8
            invariant
                j <= 8,
                i < n,
                n == b@.len() / 8,
                blen == b@.len(),
                8 * i + 8 <= blen,
                c@ == b@.subrange(8 * i, 8 * i + j),
            decreases 8 - j,
        {
            c.push(b[8 * i + j]);
            j = j + 1;
            assert(c@ =~= b@.subrange(8 * i, 8 * i + j));
        }
        match Fr::from_bytes(c.as_slice()) {
            None => {
                assert(!(le_value(chunk(b@, i as int)) < FIELD_MODULUS));
                return None;
            },
            Some(x) => {
                out.push(x);
            },
        }
        i = i + 1;
    }
    Some(out)
}

} // verus!
