use vstd::prelude::*;

verus! {

/// The ASCII code of the lower-case hexadecimal digit `d < 16`.
pub open spec fn hex_digit(d: nat) -> u8 {
    if d < 10 {
        (48 + d) as u8
    } else {
        (97 + d - 10) as u8
    }
}

/// Two lower-case hexadecimal digits per byte, high digit first, as ASCII.
pub open spec fn hex_bytes(v: Seq<u8>) -> Seq<u8>
    decreases v.len(),
{
    if v.len() == 0 {
        Seq::empty()
    } else {
        hex_bytes(v.drop_last()) + seq![hex_digit(v.last() as nat / 16), hex_digit(v.last() as nat % 16)]
    }
}

/// The text of `hex_bytes(v)`.
pub open spec fn hex_of(v: Seq<u8>) -> Seq<char> {
    hex_bytes(v).map_values(|c: u8| c as char)
}

/// Relies on String::from_utf8, which accepts every ASCII byte string and
/// keeps its bytes as the characters of the text.
#[verifier::external_body]
fn ascii_text(b: Vec<u8>) -> (s: String)
    requires
        forall|i: int| 0 <= i < b@.len() ==> b@[i] < 128,
    ensures
        s@ == b@.map_values(|c: u8| c as char),
{
    match String::from_utf8(b) {
        Ok(s) => s,
        Err(_) => String::new(),
    }
}

fn digit(d: u8) -> (c: u8)
    requires
        d < 16,
    ensures
        c == hex_digit(d as nat),
        c < 128,
{
    if d < 10 {
        48 + d
    } else {
        97 + d - 10
    }
}

proof fn lemma_hex_ascii(v: Seq<u8>)
    ensures
        forall|i: int| 0 <= i < hex_bytes(v).len() ==> hex_bytes(v)[i] < 128,
        hex_bytes(v).len() == 2 * v.len(),
    decreases v.len(),
{
    if v.len() > 0 {
        lemma_hex_ascii(v.drop_last());
    }
}

/// Lower-case hexadecimal encoding of `v`.
pub fn to_hex(v: &[u8]) -> (s: String)
    ensures
        s@ == hex_of(v@),
{
    let mut out: Vec<u8> = Vec::new();
    let mut i: usize = 0;
    while i < v.len()
        invariant
            i <= v@.len(),
            out@ == hex_bytes(v@.subrange(0, i as int)),
        decreases v@.len() - i,
    {
        let b = v[i];
        out.push(digit(b / 16));
        out.push(digit(b % 16));
        proof {
            assert(v@.subrange(0, i + 1).drop_last() =~= v@.subrange(0, i as int));
        }
        i = i + 1;
    }
    assert(v@.subrange(0, i as int) =~= v@);
    proof {
        lemma_hex_ascii(v@);
    }
    ascii_text(out)
}

} // verus!
