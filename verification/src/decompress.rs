//! One-shot decompression into caller-sized buffers, for the raw DEFLATE,
//! zlib and gzip formats.

use vstd::bytes::u32_from_le_bytes;
use vstd::prelude::*;

use crate::checksum;
use crate::engine;
use crate::engine::{inflate_of, RawInflate};
use crate::framing;
use crate::framing::{gzip_decode, gzip_header_len, zlib_decode};

verus! {

/// An error that may be returned by one of the [`Decompressor`]'s
/// `*_decompress` methods when a decompression cannot be performed.
#[derive(Copy, Clone, PartialEq, Eq, Structural, Debug)]
pub enum DecompressionError {
    /// The provided data is invalid in some way: bad magic bytes or
    /// header fields, a checksum or length field that reveals corruption,
    /// a truncated stream, or a malformed DEFLATE body.
    BadData,
    /// The provided output buffer is not large enough to accommodate the
    /// decompressed data.
    InsufficientSpace,
}

impl DecompressionError {
    /// A human-readable description of the error.
    pub fn message(&self) -> (r: &'static str)
        ensures
            self is BadData ==> r@ == "the data provided to a decompress call was invalid (bad magic numbers, bad checksum, or a malformed stream)"@,
            self is InsufficientSpace ==> r@ == "the buffer provided to a decompress call was too small to accommodate the decompressed data"@,
    {
        match self {
            DecompressionError::BadData => "the data provided to a decompress call was invalid (bad magic numbers, bad checksum, or a malformed stream)",
            DecompressionError::InsufficientSpace => "the buffer provided to a decompress call was too small to accommodate the decompressed data",
        }
    }
}

/// A decompressor that can inflate raw DEFLATE, zlib, or gzip data.  It
/// carries no configuration: each format is self-describing.
pub struct Decompressor {
    _reserved: (),
}

/// Scans `s` for the first zero byte at or after `start`.
fn scan_nul(s: &[u8], start: usize) -> (r: Option<usize>)
    requires
        start <= s@.len(),
    ensures
        match r {
            Some(j) => framing::find_nul(s@, start as int) == Some(j as int) && start <= j
                < s@.len(),
            None => framing::find_nul(s@, start as int) is None,
        },
{
    let n = s.len();
    let mut i = start;
    while i < n
        invariant
            start <= i <= n,
            n == s@.len(),
            framing::find_nul(s@, start as int) == framing::find_nul(s@, i as int),
        decreases n - i,
    {
        if s[i] == 0 {
            return Some(i);
        }
        proof {
            assert(framing::find_nul(s@, i as int) == framing::find_nul(s@, i + 1));
        }
        i += 1;
    }
    None
}

/// Parses the gzip header at the start of `s`, returning its length:
/// magic bytes, method and reserved flag bits are checked, and the
/// optional FEXTRA, FNAME, FCOMMENT and FHCRC fields are skipped.
fn parse_gzip_header(s: &[u8]) -> (r: Option<usize>)
    ensures
        match r {
            Some(h) => gzip_header_len(s@) == Some(h as int) && 10 <= h <= s@.len(),
            None => gzip_header_len(s@) is None,
        },
{
    let n = s.len();
    if n < 10 {
        return None;
    }
    if s[0] != 0x1f || s[1] != 0x8b || s[2] != 8 {
        return None;
    }
    let flg = s[3];
    if flg & 0xe0 != 0 {
        return None;
    }
    let mut pos: usize = 10;
    if flg & 0x04 != 0 {
        if n - pos < 2 {
            return None;
        }
        let xlen: usize = (s[pos] as usize) + 256 * (s[pos + 1] as usize);
        if xlen > n - (pos + 2) {
            return None;
        }
        pos = pos + 2 + xlen;
    }
    let ghost after_extra = pos as int;
    proof {
        assert(framing::gzip_after_extra(s@, 10, flg) == Some(after_extra));
    }
    if flg & 0x08 != 0 {
        match scan_nul(s, pos) {
            Some(j) => {
                pos = j + 1;
            },
            None => {
                return None;
            },
        }
    }
    let ghost after_name = pos as int;
    proof {
        assert(framing::gzip_after_name(s@, after_extra, flg) == Some(after_name));
    }
    if flg & 0x10 != 0 {
        match scan_nul(s, pos) {
            Some(j) => {
                pos = j + 1;
            },
            None => {
                return None;
            },
        }
    }
    let ghost after_comment = pos as int;
    proof {
        assert(framing::gzip_after_comment(s@, after_name, flg) == Some(after_comment));
    }
    if flg & 0x02 != 0 {
        if n - pos < 2 {
            return None;
        }
        pos = pos + 2;
    }
    proof {
        assert(framing::gzip_after_hcrc(s@, after_comment, flg) == Some(pos as int));
    }
    Some(pos)
}

/// Reads a big-endian u32 from a 4-byte slice.
fn read_be32(s: &[u8]) -> (r: u32)
    requires
        s@.len() == 4,
    ensures
        r == framing::spec_u32_from_be_bytes(s@),
{
    ((s[0] as u32) << 24u32) | ((s[1] as u32) << 16u32) | ((s[2] as u32) << 8u32) | (s[3] as u32)
}

impl Decompressor {
    /// Returns a newly constructed instance of a `Decompressor`.
    pub fn new() -> (r: Decompressor) {
        Decompressor { _reserved: () }
    }

    /// Decompresses `deflate_data` (a raw DEFLATE stream) into the prefix
    /// of `out`, whose length is never changed.  Returns the number of
    /// decompressed bytes written; `BadData` exactly when the input holds
    /// no well-formed stream; `InsufficientSpace` when the decompressed
    /// data does not fit in `out`.  On an error, `out` keeps its old
    /// contents; on success, bytes beyond the returned count do.
    pub fn deflate_decompress(&mut self, deflate_data: &[u8], out: &mut Vec<u8>) -> (r: Result<
        usize,
        DecompressionError,
    >)
        ensures
            final(out)@.len() == old(out)@.len(),
            match r {
                Ok(n) => {
                    &&& inflate_of(deflate_data@) matches Some(p)
                    &&& n as int == p.len()
                    &&& p.len() <= old(out)@.len()
                    &&& final(out)@ == p + old(out)@.skip(p.len() as int)
                },
                Err(DecompressionError::BadData) => inflate_of(deflate_data@) is None
                    && final(out)@ == old(out)@,
                Err(DecompressionError::InsufficientSpace) => (inflate_of(
                    deflate_data@,
                ) matches Some(p) ==> p.len() > old(out)@.len()) && final(out)@ == old(out)@,
            },
    {
        match engine::inflate_raw(deflate_data, out.len()) {
            RawInflate::Done(v) => {
                let n = v.len();
                framing::copy_into_prefix(out, v.as_slice());
                Ok(n)
            },
            RawInflate::OutputTooLarge => Err(DecompressionError::InsufficientSpace),
            RawInflate::Malformed => Err(DecompressionError::BadData),
        }
    }

    /// Decompresses `zlib_data` (a zlib stream) into the prefix of `out`,
    /// whose length is never changed.  Returns the number of decompressed
    /// bytes written; `BadData` exactly when the stream's header, DEFLATE
    /// body or Adler-32 trailer is invalid; `InsufficientSpace` when the
    /// decompressed data does not fit in `out`.  On an error, `out` keeps
    /// its old contents; on success, bytes beyond the returned count do.
    pub fn zlib_decompress(&mut self, zlib_data: &[u8], out: &mut Vec<u8>) -> (r: Result<
        usize,
        DecompressionError,
    >)
        ensures
            final(out)@.len() == old(out)@.len(),
            match r {
                Ok(n) => {
                    &&& zlib_decode(zlib_data@) matches Some(p)
                    &&& n as int == p.len()
                    &&& p.len() <= old(out)@.len()
                    &&& final(out)@ == p + old(out)@.skip(p.len() as int)
                },
                Err(DecompressionError::BadData) => zlib_decode(zlib_data@) is None
                    && final(out)@ == old(out)@,
                Err(DecompressionError::InsufficientSpace) => (zlib_decode(
                    zlib_data@,
                ) matches Some(p) ==> p.len() > old(out)@.len()) && final(out)@ == old(out)@,
            },
    {
        let n = zlib_data.len();
        if n < 6 {
            return Err(DecompressionError::BadData);
        }
        let cmf = zlib_data[0];
        let flg = zlib_data[1];
        if cmf & 0x0f != 8 || (cmf >> 4u8) > 7 || flg & 0x20 != 0 {
            return Err(DecompressionError::BadData);
        }
        if ((cmf as u32) * 256 + (flg as u32)) % 31 != 0 {
            return Err(DecompressionError::BadData);
        }
        let body = vstd::slice::slice_subrange(zlib_data, 2, n - 4);
        match engine::inflate_raw(body, out.len()) {
            RawInflate::Done(v) => {
                let stored = read_be32(vstd::slice::slice_subrange(zlib_data, n - 4, n));
                let actual = checksum::adler32(v.as_slice());
                if actual != stored {
                    return Err(DecompressionError::BadData);
                }
                let written = v.len();
                framing::copy_into_prefix(out, v.as_slice());
                Ok(written)
            },
            RawInflate::OutputTooLarge => Err(DecompressionError::InsufficientSpace),
            RawInflate::Malformed => Err(DecompressionError::BadData),
        }
    }

    /// Decompresses `gz_data` (a gzip stream) into the prefix of `out`,
    /// whose length is never changed.  Returns the number of decompressed
    /// bytes written; `BadData` exactly when the stream's header, DEFLATE
    /// body, CRC-32 trailer or ISIZE field is invalid; `InsufficientSpace`
    /// when the decompressed data does not fit in `out`.  On an error,
    /// `out` keeps its old contents; on success, bytes beyond the returned
    /// count do.
    pub fn gzip_decompress(&mut self, gz_data: &[u8], out: &mut Vec<u8>) -> (r: Result<
        usize,
        DecompressionError,
    >)
        ensures
            final(out)@.len() == old(out)@.len(),
            match r {
                Ok(n) => {
                    &&& gzip_decode(gz_data@) matches Some(p)
                    &&& n as int == p.len()
                    &&& p.len() <= old(out)@.len()
                    &&& final(out)@ == p + old(out)@.skip(p.len() as int)
                },
                Err(DecompressionError::BadData) => gzip_decode(gz_data@) is None && final(out)@
                    == old(out)@,
                Err(DecompressionError::InsufficientSpace) => (gzip_decode(
                    gz_data@,
                ) matches Some(p) ==> p.len() > old(out)@.len()) && final(out)@ == old(out)@,
            },
    {
        let n = gz_data.len();
        let hdr = match parse_gzip_header(gz_data) {
            Some(h) => h,
            None => {
                return Err(DecompressionError::BadData);
            },
        };
        if n - hdr < 8 {
            return Err(DecompressionError::BadData);
        }
        let body = vstd::slice::slice_subrange(gz_data, hdr, n - 8);
        match engine::inflate_raw(body, out.len()) {
            RawInflate::Done(v) => {
                let stored_crc = u32_from_le_bytes(
                    vstd::slice::slice_subrange(gz_data, n - 8, n - 4),
                );
                let stored_isz = u32_from_le_bytes(vstd::slice::slice_subrange(gz_data, n - 4, n));
                let actual_crc = checksum::crc32(v.as_slice());
                let len64: u64 = v.len() as u64;
                let actual_isz: u32 = (len64 % 0x1_0000_0000) as u32;
                if actual_crc != stored_crc || actual_isz != stored_isz {
                    return Err(DecompressionError::BadData);
                }
                let written = v.len();
                framing::copy_into_prefix(out, v.as_slice());
                Ok(written)
            },
            RawInflate::OutputTooLarge => Err(DecompressionError::InsufficientSpace),
            RawInflate::Malformed => Err(DecompressionError::BadData),
        }
    }
}

} // verus!
