//! Trusted boundary to the outside compression and checksum engines.
//!
//! Everything the library takes on trust about outside code stands in this
//! module: the raw DEFLATE entropy coder of `miniz_oxide`, the CRC-32
//! implementation of `crc32fast` and the Adler-32 implementation of
//! `adler2`.  Each outside call sits behind exactly one wrapper whose
//! contract states, over the uninterpreted names below, what the outside
//! source shows.  All container framing (zlib, gzip) is built and verified
//! on top of these contracts elsewhere in the library.

use vstd::prelude::*;

verus! {

/// The raw DEFLATE stream that the engine produces for `data` at the given
/// engine level (0..=10).  The encoder is a pure, deterministic function of
/// its two arguments, so the stream can be given a name.
pub uninterp spec fn deflate_of(level: int, data: Seq<u8>) -> Seq<u8>;

/// What raw DEFLATE decoding yields on `data`: the decoded bytes, or `None`
/// when `data` does not begin with a well-formed DEFLATE stream.  Input
/// bytes after the end of the encoded stream are ignored.
pub uninterp spec fn inflate_of(data: Seq<u8>) -> Option<Seq<u8>>;

/// The CRC-32 checksum (gzip-family polynomial) of a non-empty byte
/// sequence.  The checksum of the empty sequence is 0 and is not routed
/// through this name; see [`crate::checksum::crc_acc`].
pub uninterp spec fn crc32_of(data: Seq<u8>) -> u32;

/// The Adler-32 checksum of a non-empty byte sequence.  The checksum of the
/// empty sequence is 1 and is not routed through this name; see
/// [`crate::checksum::adler_acc`].
pub uninterp spec fn adler32_of(data: Seq<u8>) -> u32;

/// Worst-case size of the engine's raw DEFLATE stream for an input of `n`
/// bytes.  The engine's block writer falls back to stored blocks when a
/// block would expand, and its Huffman coding spends on average at most
/// slightly over nine bits per literal byte, so a quarter of the input plus
/// a small constant for block headers covers every case with a wide margin.
pub open spec fn deflate_capacity(n: int) -> int {
    n + n / 4 + 512
}

/// Outcome of one bounded raw DEFLATE decode.
pub enum RawInflate {
    /// The whole stream decoded to these bytes, within the limit.
    Done(Vec<u8>),
    /// Decoding stopped because the output would exceed the limit.
    OutputTooLarge,
    /// The input does not hold a well-formed DEFLATE stream.
    Malformed,
}

/// Relies on `miniz_oxide::deflate::compress_to_vec`: a deterministic,
/// pure-function encoder from (bytes, level) to a raw DEFLATE stream that
/// its own decoder inverts; levels above 10 are clamped by the callee.  The
/// stream is never empty and never exceeds [`deflate_capacity`] (the callee
/// replaces any block that would expand past that by a stored block).
#[verifier::external_body]
pub(crate) fn deflate_raw(data: &[u8], level: u8) -> (r: Vec<u8>)
    requires
        level <= 10,
    ensures
        r@ == deflate_of(level as int, data@),
        inflate_of(r@) == Some(data@),
        1 <= r@.len() <= deflate_capacity(data@.len() as int),
{
    miniz_oxide::deflate::compress_to_vec(data, level)
}

/// Relies on `miniz_oxide::inflate::decompress_to_vec_with_limit`: decodes
/// the raw DEFLATE stream at the start of `data`, growing the output to at
/// most `limit` bytes.  On success the result is the full decoded stream;
/// `HasMoreOutput` is reported exactly when the decoder wanted to write
/// beyond `limit`, before any later malformation could be seen; every other
/// failure status means the input is not a well-formed stream.
#[verifier::external_body]
pub(crate) fn inflate_raw(data: &[u8], limit: usize) -> (r: RawInflate)
    ensures
        match r {
            RawInflate::Done(v) => inflate_of(data@) == Some(v@) && v@.len() <= limit,
            RawInflate::OutputTooLarge => match inflate_of(data@) {
                Some(p) => p.len() > limit,
                None => true,
            },
            RawInflate::Malformed => inflate_of(data@) is None,
        },
{
    match miniz_oxide::inflate::decompress_to_vec_with_limit(data, limit) {
        Ok(v) => RawInflate::Done(v),
        Err(e) => match e.status {
            miniz_oxide::inflate::TINFLStatus::HasMoreOutput => RawInflate::OutputTooLarge,
            _ => RawInflate::Malformed,
        },
    }
}

/// Relies on `crc32fast::Hasher`: `new_with_initial(seed)` resumes a CRC-32
/// computation from a previously returned checksum, `update` folds bytes
/// into it, and `finalize` returns the checksum.  Folding no bytes returns
/// the seed unchanged; the seed 0 is the initial state, so seeding with 0
/// yields the plain CRC-32 of `data`; and resuming from the checksum of any
/// prefix yields the checksum of the concatenation, since the CRC register
/// is a function of the checksum value alone.
#[verifier::external_body]
pub(crate) fn crc32_resume(seed: u32, data: &[u8]) -> (r: u32)
    ensures
        data@.len() == 0 ==> r == seed,
        seed == 0 && data@.len() > 0 ==> r == crc32_of(data@),
        forall|prefix: Seq<u8>|
            prefix.len() > 0 && seed == crc32_of(prefix) ==> r == #[trigger] crc32_of(
                prefix + data@,
            ),
{
    let mut h = crc32fast::Hasher::new_with_initial(seed);
    h.update(data);
    h.finalize()
}

/// Relies on `adler2::Adler32`: `from_checksum(seed)` resumes an Adler-32
/// computation from a previously returned checksum, `write_slice` folds
/// bytes into it, and `checksum` returns it.  Folding no bytes returns the
/// seed unchanged; the seed 1 is the initial state, so seeding with 1
/// yields the plain Adler-32 of `data`; and resuming from the checksum of
/// any prefix yields the checksum of the concatenation, since the two
/// running sums are exactly the checksum's two halves.
#[verifier::external_body]
pub(crate) fn adler32_resume(seed: u32, data: &[u8]) -> (r: u32)
    ensures
        data@.len() == 0 ==> r == seed,
        seed == 1 && data@.len() > 0 ==> r == adler32_of(data@),
        forall|prefix: Seq<u8>|
            prefix.len() > 0 && seed == adler32_of(prefix) ==> r == #[trigger] adler32_of(
                prefix + data@,
            ),
{
    let mut h = adler2::Adler32::from_checksum(seed);
    h.write_slice(data);
    h.checksum()
}

} // verus!
