//! Rolling CRC-32 accumulator and one-shot checksum helpers.

use vstd::prelude::*;

use crate::engine;
use crate::engine::{adler32_of, crc32_of};

verus! {

/// The sum a CRC-32 accumulator reports after absorbing `h`: the
/// algorithm's seed 0 for the empty history, and the CRC-32 of `h`
/// otherwise.
pub open spec fn crc_acc(h: Seq<u8>) -> u32 {
    if h.len() == 0 {
        0
    } else {
        crc32_of(h)
    }
}

/// The sum an Adler-32 accumulator reports after absorbing `h`: the
/// algorithm's seed 1 for the empty history, and the Adler-32 of `h`
/// otherwise.
pub open spec fn adler_acc(h: Seq<u8>) -> u32 {
    if h.len() == 0 {
        1
    } else {
        adler32_of(h)
    }
}

/// Holds the state required to compute a rolling CRC-32 value: the running
/// checksum, together with (ghost) the bytes absorbed so far.
pub struct Crc {
    val: u32,
    history: Ghost<Seq<u8>>,
}

impl Crc {
    /// The bytes this accumulator has absorbed so far.
    pub closed spec fn spec_history(self) -> Seq<u8> {
        self.history@
    }

    /// The running value is the checksum of the absorbed bytes.
    pub closed spec fn wf(self) -> bool {
        self.val == crc_acc(self.history@)
    }

    /// Returns a fresh accumulator: nothing absorbed, sum 0.
    pub fn new() -> (r: Crc)
        ensures
            r.wf(),
            r.spec_history() == Seq::<u8>::empty(),
    {
        Crc { val: 0, history: Ghost(Seq::empty()) }
    }

    /// Folds the bytes in `data` into the running CRC-32 value.
    pub fn update(&mut self, data: &[u8])
        requires
            old(self).wf(),
        ensures
            final(self).wf(),
            final(self).spec_history() == old(self).spec_history() + data@,
    {
        let ghost h = self.history@;
        let new_val = engine::crc32_resume(self.val, data);
        proof {
            if h.len() == 0 {
                if data@.len() == 0 {
                    assert((h + data@).len() == 0);
                } else {
                    assert(h + data@ =~= data@);
                }
            } else {
                assert(new_val == crc32_of(h + data@));
                assert((h + data@).len() > 0);
            }
        }
        self.val = new_val;
        self.history = Ghost(h + data@);
    }

    /// Returns the current CRC-32 checksum: a pure read, no side effect.
    pub fn sum(&self) -> (r: u32)
        requires
            self.wf(),
        ensures
            r == crc_acc(self.spec_history()),
    {
        self.val
    }
}

/// Returns the CRC-32 checksum of the bytes in `data`.
///
/// This is a one-shot convenience equivalent to a fresh [`Crc`], one
/// `update` with `data`, and `sum`.
pub fn crc32(data: &[u8]) -> (r: u32)
    ensures
        r == crc_acc(data@),
{
    let mut crc = Crc::new();
    crc.update(data);
    proof {
        assert(Seq::<u8>::empty() + data@ =~= data@);
    }
    crc.sum()
}

/// Returns the Adler-32 checksum of the bytes in `data`, as it appears in
/// a zlib trailer.
pub fn adler32(data: &[u8]) -> (r: u32)
    ensures
        r == adler_acc(data@),
{
    engine::adler32_resume(1, data)
}

/// Splitting one buffer into two `update` calls equals one call with the
/// concatenation: an accumulator that has absorbed `b1` and then `b2`
/// reports the same sum as one that absorbed `b1 + b2` at once, so the
/// rolling [`Crc`] agrees with the one-shot [`crc32`] on the concatenated
/// bytes.
pub proof fn lemma_crc_split(b1: Seq<u8>, b2: Seq<u8>)
    ensures
        crc_acc(Seq::<u8>::empty() + b1 + b2) == crc_acc(b1 + b2),
{
    assert(Seq::<u8>::empty() + b1 + b2 =~= b1 + b2);
}

} // verus!
