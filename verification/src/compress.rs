//! One-shot compression into caller-sized buffers, for the raw DEFLATE,
//! zlib and gzip formats.

use vstd::prelude::*;

use crate::checksum;
use crate::engine;
use crate::engine::{deflate_capacity, deflate_of, inflate_of};
use crate::framing;
use crate::framing::{gzip_encode, zlib_encode, ZLIB_CMF, ZLIB_FLG};
use crate::level::CompressionLvl;

verus! {

/// An error that may be returned by one of the [`Compressor`]'s
/// `*_compress` methods.
#[derive(Copy, Clone, PartialEq, Eq, Structural, Debug)]
pub enum CompressionError {
    /// The output buffer is too small to hold the compressed stream.
    InsufficientSpace,
}

impl CompressionError {
    /// A human-readable description of the error.
    pub fn message(&self) -> (r: &'static str)
        ensures
            self is InsufficientSpace ==> r@ == "the output buffer provided to a compress call was too small for the input data"@,
    {
        match self {
            CompressionError::InsufficientSpace => "the output buffer provided to a compress call was too small for the input data",
        }
    }
}

/// The engine level (0..=10) a [`CompressionLvl`] (1..=12) stands for:
/// levels up to 9 map to themselves, the levels above to the engine's
/// strongest setting.
pub open spec fn engine_level(l: int) -> int {
    if l < 1 {
        1
    } else if l <= 9 {
        l
    } else {
        10
    }
}

/// Worst-case size of a raw DEFLATE stream for `n` input bytes.
pub open spec fn deflate_bound_spec(n: int) -> int {
    deflate_capacity(n)
}

/// Worst-case size of a zlib stream for `n` input bytes: the DEFLATE worst
/// case plus the 2-byte header and the 4-byte Adler-32 trailer.
pub open spec fn zlib_bound_spec(n: int) -> int {
    deflate_capacity(n) + 6
}

/// Worst-case size of a gzip stream for `n` input bytes: the DEFLATE worst
/// case plus the 10-byte header and the 8-byte trailer.
pub open spec fn gzip_bound_spec(n: int) -> int {
    deflate_capacity(n) + 18
}

/// A compressor that can compress arbitrary data into the raw DEFLATE,
/// zlib, or gzip format, at the level fixed when it was constructed.
pub struct Compressor {
    lvl: CompressionLvl,
}

impl Compressor {
    /// The numeric compression level this compressor was built with.
    pub closed spec fn spec_level(self) -> int {
        self.lvl.spec_level()
    }

    /// Returns a newly constructed `Compressor` that compresses data at
    /// the supplied [`CompressionLvl`].
    pub fn new(lvl: CompressionLvl) -> (r: Compressor)
        ensures
            r.spec_level() == lvl.spec_level(),
    {
        Compressor { lvl }
    }

    /// The engine-side level this compressor hands to the DEFLATE engine.
    fn engine_lvl(&self) -> (r: u8)
        ensures
            r as int == engine_level(self.spec_level()),
            r <= 10,
    {
        let l: i32 = i32::from(self.lvl);
        if l < 1 {
            1
        } else if l <= 9 {
            l as u8
        } else {
            10
        }
    }

    /// Returns the maximum number of bytes required to encode `n_bytes`
    /// of input as raw DEFLATE data: a hard upper bound that assumes the
    /// data cannot be compressed at all.  Compressing into a buffer of
    /// this size never fails with `InsufficientSpace`.
    pub fn deflate_compress_bound(&mut self, n_bytes: usize) -> (r: usize)
        ensures
            *final(self) == *old(self),
            r as int == deflate_bound_spec(n_bytes as int) || (r == usize::MAX
                && deflate_bound_spec(n_bytes as int) > usize::MAX),
    {
        let quarter = n_bytes / 4;
        if n_bytes <= usize::MAX - 512 - quarter {
            n_bytes + quarter + 512
        } else {
            usize::MAX
        }
    }

    /// Returns the maximum number of bytes required to encode `n_bytes`
    /// of input as zlib data: a hard upper bound that assumes the data
    /// cannot be compressed at all, plus the container overhead.
    pub fn zlib_compress_bound(&mut self, n_bytes: usize) -> (r: usize)
        ensures
            *final(self) == *old(self),
            r as int == zlib_bound_spec(n_bytes as int) || (r == usize::MAX && zlib_bound_spec(
                n_bytes as int,
            ) > usize::MAX),
    {
        let quarter = n_bytes / 4;
        if n_bytes <= usize::MAX - 518 - quarter {
            n_bytes + quarter + 518
        } else {
            usize::MAX
        }
    }

    /// Returns the maximum number of bytes required to encode `n_bytes`
    /// of input as gzip data: a hard upper bound that assumes the data
    /// cannot be compressed at all, plus the container overhead.
    pub fn gzip_compress_bound(&mut self, n_bytes: usize) -> (r: usize)
        ensures
            *final(self) == *old(self),
            r as int == gzip_bound_spec(n_bytes as int) || (r == usize::MAX && gzip_bound_spec(
                n_bytes as int,
            ) > usize::MAX),
    {
        let quarter = n_bytes / 4;
        if n_bytes <= usize::MAX - 530 - quarter {
            n_bytes + quarter + 530
        } else {
            usize::MAX
        }
    }

    /// Compresses `in_raw_data` as raw DEFLATE data into the prefix of
    /// `out_deflate_data`, whose length is never changed.  Returns the
    /// number of bytes written, or `InsufficientSpace` exactly when the
    /// buffer is shorter than the compressed stream; bytes of the buffer
    /// beyond the returned count keep their old values.
    pub fn deflate_compress(
        &mut self,
        in_raw_data: &[u8],
        out_deflate_data: &mut Vec<u8>,
    ) -> (r: Result<usize, CompressionError>)
        ensures
            *final(self) == *old(self),
            final(out_deflate_data)@.len() == old(out_deflate_data)@.len(),
            ({
                let enc = deflate_of(engine_level(old(self).spec_level()), in_raw_data@);
                match r {
                    Ok(n) => {
                        &&& n as int == enc.len()
                        &&& enc.len() <= old(out_deflate_data)@.len()
                        &&& final(out_deflate_data)@ == enc + old(out_deflate_data)@.skip(
                            enc.len() as int,
                        )
                        &&& inflate_of(enc) == Some(in_raw_data@)
                    },
                    Err(e) => {
                        &&& e == CompressionError::InsufficientSpace
                        &&& enc.len() > old(out_deflate_data)@.len()
                        &&& final(out_deflate_data)@ == old(out_deflate_data)@
                    },
                }
            }),
            1 <= deflate_of(engine_level(old(self).spec_level()), in_raw_data@).len()
                <= deflate_bound_spec(in_raw_data@.len() as int),
            old(out_deflate_data)@.len() >= deflate_bound_spec(in_raw_data@.len() as int)
                ==> r is Ok,
    {
        let enc = engine::deflate_raw(in_raw_data, self.engine_lvl());
        if enc.len() > out_deflate_data.len() {
            return Err(CompressionError::InsufficientSpace);
        }
        let n = enc.len();
        framing::copy_into_prefix(out_deflate_data, enc.as_slice());
        Ok(n)
    }

    /// Compresses `in_raw_data` as zlib data into the prefix of
    /// `out_zlib_data`, whose length is never changed.  Returns the number
    /// of bytes written, or `InsufficientSpace` exactly when the buffer is
    /// shorter than the encoded stream; bytes of the buffer beyond the
    /// returned count keep their old values.
    pub fn zlib_compress(&mut self, in_raw_data: &[u8], out_zlib_data: &mut Vec<u8>) -> (r: Result<
        usize,
        CompressionError,
    >)
        ensures
            *final(self) == *old(self),
            final(out_zlib_data)@.len() == old(out_zlib_data)@.len(),
            ({
                let enc = zlib_encode(engine_level(old(self).spec_level()), in_raw_data@);
                match r {
                    Ok(n) => {
                        &&& n as int == enc.len()
                        &&& enc.len() <= old(out_zlib_data)@.len()
                        &&& final(out_zlib_data)@ == enc + old(out_zlib_data)@.skip(
                            enc.len() as int,
                        )
                        &&& inflate_of(
                            deflate_of(engine_level(old(self).spec_level()), in_raw_data@),
                        ) == Some(in_raw_data@)
                    },
                    Err(e) => {
                        &&& e == CompressionError::InsufficientSpace
                        &&& enc.len() > old(out_zlib_data)@.len()
                        &&& final(out_zlib_data)@ == old(out_zlib_data)@
                    },
                }
            }),
            zlib_encode(engine_level(old(self).spec_level()), in_raw_data@).len()
                <= zlib_bound_spec(in_raw_data@.len() as int),
            old(out_zlib_data)@.len() >= zlib_bound_spec(in_raw_data@.len() as int) ==> r is Ok,
    {
        let ghost lvl = engine_level(self.spec_level());
        let mut body = engine::deflate_raw(in_raw_data, self.engine_lvl());
        let adler = checksum::adler32(in_raw_data);
        let mut enc: Vec<u8> = Vec::new();
        enc.push(ZLIB_CMF);
        enc.push(ZLIB_FLG);
        enc.append(&mut body);
        enc.push(((adler >> 24) & 0xff) as u8);
        enc.push(((adler >> 16) & 0xff) as u8);
        enc.push(((adler >> 8) & 0xff) as u8);
        enc.push((adler & 0xff) as u8);
        proof {
            assert(enc@ =~= zlib_encode(lvl, in_raw_data@));
        }
        if enc.len() > out_zlib_data.len() {
            return Err(CompressionError::InsufficientSpace);
        }
        let n = enc.len();
        framing::copy_into_prefix(out_zlib_data, enc.as_slice());
        Ok(n)
    }

    /// Compresses `in_raw_data` as gzip data into the prefix of
    /// `out_gzip_data`, whose length is never changed.  Returns the number
    /// of bytes written, or `InsufficientSpace` exactly when the buffer is
    /// shorter than the encoded stream; bytes of the buffer beyond the
    /// returned count keep their old values.
    pub fn gzip_compress(&mut self, in_raw_data: &[u8], out_gzip_data: &mut Vec<u8>) -> (r: Result<
        usize,
        CompressionError,
    >)
        ensures
            *final(self) == *old(self),
            final(out_gzip_data)@.len() == old(out_gzip_data)@.len(),
            ({
                let enc = gzip_encode(engine_level(old(self).spec_level()), in_raw_data@);
                match r {
                    Ok(n) => {
                        &&& n as int == enc.len()
                        &&& enc.len() <= old(out_gzip_data)@.len()
                        &&& final(out_gzip_data)@ == enc + old(out_gzip_data)@.skip(
                            enc.len() as int,
                        )
                        &&& inflate_of(
                            deflate_of(engine_level(old(self).spec_level()), in_raw_data@),
                        ) == Some(in_raw_data@)
                    },
                    Err(e) => {
                        &&& e == CompressionError::InsufficientSpace
                        &&& enc.len() > old(out_gzip_data)@.len()
                        &&& final(out_gzip_data)@ == old(out_gzip_data)@
                    },
                }
            }),
            gzip_encode(engine_level(old(self).spec_level()), in_raw_data@).len()
                <= gzip_bound_spec(in_raw_data@.len() as int),
            old(out_gzip_data)@.len() >= gzip_bound_spec(in_raw_data@.len() as int) ==> r is Ok,
    {
        let ghost lvl = engine_level(self.spec_level());
        let mut body = engine::deflate_raw(in_raw_data, self.engine_lvl());
        let crc = checksum::crc32(in_raw_data);
        let len64: u64 = in_raw_data.len() as u64;
        let isz: u32 = (len64 % 0x1_0000_0000) as u32;
        let mut enc: Vec<u8> = Vec::new();
        enc.push(0x1f);
        enc.push(0x8b);
        enc.push(8);
        enc.push(0);
        enc.push(0);
        enc.push(0);
        enc.push(0);
        enc.push(0);
        enc.push(0);
        enc.push(255);
        enc.append(&mut body);
        let mut tc = vstd::bytes::u32_to_le_bytes(crc);
        enc.append(&mut tc);
        let mut ti = vstd::bytes::u32_to_le_bytes(isz);
        enc.append(&mut ti);
        proof {
            assert(isz as int == in_raw_data@.len() as int % 0x1_0000_0000);
            assert(enc@ =~= gzip_encode(lvl, in_raw_data@));
        }
        if enc.len() > out_gzip_data.len() {
            return Err(CompressionError::InsufficientSpace);
        }
        let n = enc.len();
        framing::copy_into_prefix(out_gzip_data, enc.as_slice());
        Ok(n)
    }
}

} // verus!
