use crate::codec::{le_bytes, le_value};
use crate::field::{fr_of, Fr, FIELD_MODULUS};
use crate::group::GroupElem;
use vstd::prelude::*;
use vstd::string::StringSliceAdditionalSpecFns;

verus! {

/// merlin's Fiat-Shamir transcript, carried as an opaque value.
#[verifier::external_type_specification]
#[verifier::external_body]
pub struct ExTranscript(merlin::Transcript);

/// One operation on a transcript: the start under a protocol label, an
/// absorbed message (label and bytes), or a drawn challenge (label and its
/// length as four little-endian bytes).
pub open spec fn start_op(label: Seq<char>) -> (u8, Seq<char>, Seq<u8>) {
    (0, label, Seq::empty())
}

pub open spec fn absorb_op(label: Seq<char>, message: Seq<u8>) -> (u8, Seq<char>, Seq<u8>) {
    (1, label, message)
}

pub open spec fn squeeze_op(label: Seq<char>, n: nat) -> (u8, Seq<char>, Seq<u8>) {
    (2, label, le_bytes(n, 4))
}

/// The bytes merlin's challenge function yields under `label` after the
/// operations `history`.
pub uninterp spec fn challenge_of(history: Seq<(u8, Seq<char>, Seq<u8>)>, label: Seq<char>, n: nat) -> Seq<u8>;

/// The challenge scalar drawn under `label` after `history`.
pub open spec fn challenge_scalar_of(history: Seq<(u8, Seq<char>, Seq<u8>)>, label: Seq<char>) -> nat {
    le_value(challenge_of(history, label, CHALLENGE_BYTES as nat)) % (FIELD_MODULUS as nat)
}

/// Relies on merlin::Transcript::new: a fresh transcript separated by `label`.
#[verifier::external_body]
fn merlin_new(label: &'static str) -> (r: merlin::Transcript) {
    merlin::Transcript::new(label.as_bytes())
}

/// A Fiat-Shamir transcript with the record of what it has been through:
/// merlin's challenges are a function of that record.
pub struct ProofTranscript {
    inner: merlin::Transcript,
    history: Ghost<Seq<(u8, Seq<char>, Seq<u8>)>>,
}

impl ProofTranscript {
    /// The operations performed on the transcript, from its start.
    pub closed spec fn history(&self) -> Seq<(u8, Seq<char>, Seq<u8>)> {
        self.history@
    }

    /// A fresh transcript for the protocol named `label`.
    pub fn new(label: &'static str) -> (r: ProofTranscript)
        ensures
            r.history() == seq![start_op(label@)],
    {
        let ghost h = seq![start_op(label@)];
        ProofTranscript { inner: merlin_new(label), history: Ghost(h) }
    }

    /// Relies on merlin::Transcript::append_message, which panics on a
    /// message whose length does not fit in a `u32`.
    #[verifier::external_body]
    fn absorb(&mut self, label: &'static str, message: &[u8])
        requires
            message@.len() <= u32::MAX,
        ensures
            final(self).history() == old(self).history().push(absorb_op(label@, message@)),
    {
        self.inner.append_message(label.as_bytes(), message)
    }

    /// Relies on merlin::Transcript::challenge_bytes: it fills the whole
    /// buffer with bytes that depend on the operations so far alone, and
    /// panics on a length that does not fit in a `u32`.
    #[verifier::external_body]
    fn squeeze(&mut self, label: &'static str, n: usize) -> (r: Vec<u8>)
        requires
            n <= u32::MAX,
        ensures
            r@ == challenge_of(old(self).history(), label@, n as nat),
            r@.len() == n,
            final(self).history() == old(self).history().push(squeeze_op(label@, n as nat)),
    {
        let mut buf = vec![0u8; n];
        self.inner.challenge_bytes(label.as_bytes(), &mut buf);
        buf
    }
}

/// A transcript's record of operations.
pub type History = Seq<(u8, Seq<char>, Seq<u8>)>;

/// The record after absorbing the text whose bytes are `bytes` (one longer
/// than `u32::MAX` bytes is not absorbed).
pub open spec fn text_hist(h: History, label: Seq<char>, bytes: Seq<u8>) -> History {
    if bytes.len() <= u32::MAX {
        h.push(absorb_op(label, bytes))
    } else {
        h
    }
}

/// The operations that absorbing each element of `gs` under `label` adds.
pub open spec fn point_ops(label: Seq<char>, gs: Seq<GroupElem>) -> History {
    Seq::new(gs.len(), |i: int| absorb_op(label, le_bytes(gs[i]@, 8)))
}

/// `n` draws of a challenge scalar under `label`.
pub open spec fn squeezes(label: Seq<char>, n: nat) -> History {
    Seq::new(n, |i: int| squeeze_op(label, CHALLENGE_BYTES as nat))
}

/// Absorbs the bytes of a protocol name or other fixed text (one longer
/// than `u32::MAX` bytes, which no caller passes, is not absorbed).
pub fn append_text(t: &mut ProofTranscript, label: &'static str, message: &str)
    ensures
        final(t).history() == text_hist(old(t).history(), label@, message.spec_bytes()),
{
    let b = message.as_bytes();
    if b.len() <= u32::MAX as usize {
        t.absorb(label, b);
    }
}

/// Width of the buffer that one challenge scalar is drawn from.
pub const CHALLENGE_BYTES: usize = 31;

/// Absorbs the encoding of a scalar.
pub fn append_scalar(t: &mut ProofTranscript, label: &'static str, x: &Fr)
    ensures
        final(t).history() == old(t).history().push(absorb_op(label@, le_bytes(x@, 8))),
{
    let b = x.to_bytes();
    t.absorb(label, b.as_slice());
}

/// Absorbs the encoding of a group element.
pub fn append_point(t: &mut ProofTranscript, label: &'static str, g: &GroupElem)
    ensures
        final(t).history() == old(t).history().push(absorb_op(label@, le_bytes(g@, 8))),
{
    let b = g.to_bytes();
    t.absorb(label, b.as_slice());
}

/// The operations that absorbing each element of `xs` under `label` adds.
pub open spec fn scalar_ops(label: Seq<char>, xs: Seq<Fr>) -> Seq<(u8, Seq<char>, Seq<u8>)> {
    Seq::new(xs.len(), |i: int| absorb_op(label, le_bytes(xs[i]@, 8)))
}

/// Absorbs each element of `xs` in turn under `label`.
pub fn append_scalars(t: &mut ProofTranscript, label: &'static str, xs: &Vec<Fr>)
    ensures
        final(t).history() == old(t).history() + scalar_ops(label@, xs@),
{
    let ghost h0 = t.history();
    let mut i: usize = 0;
    while i < xs.len()
        invariant
            i <= xs@.len(),
            t.history() == h0 + scalar_ops(label@, xs@.subrange(0, i as int)),
        decreases xs@.len() - i,
    {
        append_scalar(t, label, &xs[i]);
        i = i + 1;
        assert(t.history() =~= h0 + scalar_ops(label@, xs@.subrange(0, i as int)));
    }
    assert(xs@.subrange(0, i as int) =~= xs@);
}

/// Absorbs each element of `gs` in turn under `label`.
pub fn append_points(t: &mut ProofTranscript, label: &'static str, gs: &Vec<GroupElem>)
    ensures
        final(t).history() == old(t).history() + point_ops(label@, gs@),
{
    let ghost h0 = t.history();
    let mut i: usize = 0;
    while i < gs.len()
        invariant
            i <= gs@.len(),
            t.history() == h0 + point_ops(label@, gs@.subrange(0, i as int)),
        decreases gs@.len() - i,
    {
        append_point(t, label, &gs[i]);
        i = i + 1;
        assert(t.history() =~= h0 + point_ops(label@, gs@.subrange(0, i as int)));
    }
    assert(gs@.subrange(0, i as int) =~= gs@);
}

/// Draws a challenge scalar from `CHALLENGE_BYTES` bytes of the transcript.
pub fn challenge_scalar(t: &mut ProofTranscript, label: &'static str) -> (r: Fr)
    ensures
        r@ == challenge_scalar_of(old(t).history(), label@),
        r == fr_of(challenge_scalar_of(old(t).history(), label@)),
        final(t).history() == old(t).history().push(squeeze_op(label@, CHALLENGE_BYTES as nat)),
{
    let buf = t.squeeze(label, CHALLENGE_BYTES);
    let r = Fr::from_random_bytes(buf.as_slice());
    r.check_canonical();
    r
}

/// Draws `n` challenge scalars under one label.
pub fn challenge_scalars(t: &mut ProofTranscript, label: &'static str, n: usize) -> (r: Vec<Fr>)
    ensures
        r@.len() == n,
        forall|i: int|
            0 <= i < n ==> (#[trigger] r@[i]) == fr_of(challenge_scalar_of(
                old(t).history() + squeezes(label@, i as nat),
                label@,
            )),
        final(t).history() == old(t).history() + squeezes(label@, n as nat),
{
    let ghost h0 = t.history();
    let mut r: Vec<Fr> = Vec::new();
    let mut i: usize = 0;
    assert(h0 + squeezes(label@, 0) =~= h0);
    while i < n
        invariant
            i <= n,
            r@.len() == i,
            t.history() == h0 + squeezes(label@, i as nat),
            forall|k: int|
                0 <= k < i ==> (#[trigger] r@[k]) == fr_of(challenge_scalar_of(
                    h0 + squeezes(label@, k as nat),
                    label@,
                )),
        decreases n - i,
    {
        r.push(challenge_scalar(t, label));
        i = i + 1;
        assert(t.history() =~= h0 + squeezes(label@, i as nat));
    }
    r
}

} // verus!
