//! Byte-level definitions of the zlib and gzip containers.
//!
//! The zlib container (RFC 1950) is a 2-byte header, a raw DEFLATE stream,
//! and a big-endian Adler-32 trailer over the uncompressed data.  The gzip
//! container (RFC 1952) is a 10-byte-minimum header with optional fields, a
//! raw DEFLATE stream, and an 8-byte trailer: a little-endian CRC-32 over
//! the uncompressed data followed by the uncompressed length modulo 2^32
//! (the ISIZE field), also little-endian.
//!
//! The spec functions here say, byte for byte, what the library's compress
//! calls produce and exactly which inputs its decompress calls accept; the
//! round-trip lemmas show that decoding inverts encoding.

use vstd::bytes::{spec_u32_from_le_bytes, spec_u32_to_le_bytes};
use vstd::prelude::*;

use crate::checksum::{adler_acc, crc_acc};
use crate::engine::{deflate_of, inflate_of};

verus! {

/// The zlib CMF header byte the library emits: method 8 (DEFLATE) with a
/// 32 KiB window.
pub const ZLIB_CMF: u8 = 0x78;

/// The zlib FLG header byte the library emits: no preset dictionary, and a
/// check value that makes CMF*256+FLG a multiple of 31.
pub const ZLIB_FLG: u8 = 0x01;

/// A big-endian 4-byte encoding of `x`.
pub open spec fn spec_u32_to_be_bytes(x: u32) -> Seq<u8> {
    seq![
        ((x >> 24) & 0xff) as u8,
        ((x >> 16) & 0xff) as u8,
        ((x >> 8) & 0xff) as u8,
        (x & 0xff) as u8,
    ]
}

/// The u32 a big-endian 4-byte sequence stands for.
pub open spec fn spec_u32_from_be_bytes(s: Seq<u8>) -> u32
    recommends
        s.len() == 4,
{
    ((s[0] as u32) << 24) | ((s[1] as u32) << 16) | ((s[2] as u32) << 8) | (s[3] as u32)
}

/// Reading back a big-endian 4-byte encoding yields the encoded value.
pub proof fn lemma_u32_be_round_trip(x: u32)
    ensures
        spec_u32_from_be_bytes(spec_u32_to_be_bytes(x)) == x,
{
    assert(((((x >> 24) & 0xff) as u8) as u32) << 24 | ((((x >> 16) & 0xff) as u8) as u32) << 16
        | ((((x >> 8) & 0xff) as u8) as u32) << 8 | (((x & 0xff) as u8) as u32) == x)
        by (bit_vector);
}

/// A valid zlib header: compression method 8 (DEFLATE), a window size of at
/// most 32 KiB, no preset dictionary, and CMF*256+FLG a multiple of 31.
pub open spec fn zlib_header_ok(cmf: u8, flg: u8) -> bool {
    &&& cmf & 0x0f == 8
    &&& (cmf >> 4) <= 7
    &&& flg & 0x20 == 0
    &&& ((cmf as int) * 256 + (flg as int)) % 31 == 0
}

/// The zlib stream the library produces for `b` at the given engine level.
pub open spec fn zlib_encode(level: int, b: Seq<u8>) -> Seq<u8> {
    seq![ZLIB_CMF, ZLIB_FLG] + deflate_of(level, b) + spec_u32_to_be_bytes(adler_acc(b))
}

/// What zlib decoding yields on `s`: the decompressed bytes, or `None` when
/// the header is invalid, the DEFLATE body is malformed, or the Adler-32
/// trailer does not match the decompressed data.
pub open spec fn zlib_decode(s: Seq<u8>) -> Option<Seq<u8>> {
    if s.len() < 6 {
        None
    } else if !zlib_header_ok(s[0], s[1]) {
        None
    } else {
        match inflate_of(s.subrange(2, s.len() - 4)) {
            Some(p) => {
                if adler_acc(p) == spec_u32_from_be_bytes(
                    s.subrange(s.len() - 4, s.len() as int),
                ) {
                    Some(p)
                } else {
                    None
                }
            },
            None => None,
        }
    }
}

/// The 10-byte gzip header the library emits: magic bytes, method 8
/// (DEFLATE), no flags, zero mtime, zero XFL, and an unknown-OS byte.
pub open spec fn gzip_header() -> Seq<u8> {
    seq![0x1fu8, 0x8bu8, 8u8, 0u8, 0u8, 0u8, 0u8, 0u8, 0u8, 255u8]
}

/// The index of the first zero byte of `s` at or after `i`, if any.
pub open spec fn find_nul(s: Seq<u8>, i: int) -> Option<int>
    decreases s.len() - i,
{
    if i < 0 || i >= s.len() {
        None
    } else if s[i] == 0 {
        Some(i)
    } else {
        find_nul(s, i + 1)
    }
}

/// Position after the optional FEXTRA field, starting at `i`.
pub open spec fn gzip_after_extra(s: Seq<u8>, i: int, flg: u8) -> Option<int> {
    if flg & 0x04 == 0 {
        Some(i)
    } else if i + 2 > s.len() {
        None
    } else {
        let xlen = (s[i] as int) + 256 * (s[i + 1] as int);
        if i + 2 + xlen <= s.len() {
            Some(i + 2 + xlen)
        } else {
            None
        }
    }
}

/// Position after the optional zero-terminated FNAME field, starting at `i`.
pub open spec fn gzip_after_name(s: Seq<u8>, i: int, flg: u8) -> Option<int> {
    if flg & 0x08 == 0 {
        Some(i)
    } else {
        match find_nul(s, i) {
            Some(j) => Some(j + 1),
            None => None,
        }
    }
}

/// Position after the optional zero-terminated FCOMMENT field, starting at `i`.
pub open spec fn gzip_after_comment(s: Seq<u8>, i: int, flg: u8) -> Option<int> {
    if flg & 0x10 == 0 {
        Some(i)
    } else {
        match find_nul(s, i) {
            Some(j) => Some(j + 1),
            None => None,
        }
    }
}

/// Position after the optional FHCRC field, starting at `i`.
pub open spec fn gzip_after_hcrc(s: Seq<u8>, i: int, flg: u8) -> Option<int> {
    if flg & 0x02 == 0 {
        Some(i)
    } else if i + 2 <= s.len() {
        Some(i + 2)
    } else {
        None
    }
}

/// The length of the gzip header at the start of `s`: `None` when the magic
/// bytes, the method or a reserved flag bit is wrong, or an optional field
/// runs past the end of `s`.
pub open spec fn gzip_header_len(s: Seq<u8>) -> Option<int> {
    if s.len() < 10 {
        None
    } else if s[0] != 0x1f || s[1] != 0x8b || s[2] != 8 || s[3] & 0xe0 != 0 {
        None
    } else {
        let flg = s[3];
        match gzip_after_extra(s, 10, flg) {
            None => None,
            Some(i1) => match gzip_after_name(s, i1, flg) {
                None => None,
                Some(i2) => match gzip_after_comment(s, i2, flg) {
                    None => None,
                    Some(i3) => gzip_after_hcrc(s, i3, flg),
                },
            },
        }
    }
}

/// The gzip stream the library produces for `b` at the given engine level.
pub open spec fn gzip_encode(level: int, b: Seq<u8>) -> Seq<u8> {
    gzip_header() + deflate_of(level, b) + spec_u32_to_le_bytes(crc_acc(b))
        + spec_u32_to_le_bytes((b.len() as int % 0x1_0000_0000) as u32)
}

/// What gzip decoding yields on `s`: the decompressed bytes, or `None` when
/// the header is invalid, the DEFLATE body is malformed, or the trailer's
/// CRC-32 or ISIZE field does not match the decompressed data.
pub open spec fn gzip_decode(s: Seq<u8>) -> Option<Seq<u8>> {
    match gzip_header_len(s) {
        None => None,
        Some(h) => {
            if s.len() < h + 8 {
                None
            } else {
                match inflate_of(s.subrange(h, s.len() - 8)) {
                    None => None,
                    Some(p) => {
                        let crc = spec_u32_from_le_bytes(s.subrange(s.len() - 8, s.len() - 4));
                        let isz = spec_u32_from_le_bytes(s.subrange(s.len() - 4, s.len() as int));
                        if crc_acc(p) == crc && isz as int == p.len() as int % 0x1_0000_0000 {
                            Some(p)
                        } else {
                            None
                        }
                    },
                }
            }
        },
    }
}

/// Decoding inverts encoding for the zlib container: given that raw
/// inflation inverts the engine's raw deflation on this stream (which every
/// compress call establishes for its own output), decoding an encoded zlib
/// stream yields the original bytes.
pub proof fn lemma_zlib_round_trip(level: int, b: Seq<u8>)
    requires
        inflate_of(deflate_of(level, b)) == Some(b),
    ensures
        zlib_decode(zlib_encode(level, b)) == Some(b),
{
    let d = deflate_of(level, b);
    let t = spec_u32_to_be_bytes(adler_acc(b));
    let s = zlib_encode(level, b);
    assert(s.len() == 2 + d.len() + 4);
    assert(s[0] == ZLIB_CMF && s[1] == ZLIB_FLG);
    assert(0x78u8 & 0x0f == 8) by (bit_vector);
    assert((0x78u8 >> 4) <= 7) by (bit_vector);
    assert(0x01u8 & 0x20 == 0) by (bit_vector);
    assert((0x78 * 256 + 1) % 31 == 0);
    assert(zlib_header_ok(s[0], s[1]));
    assert(s.subrange(2, s.len() - 4) =~= d);
    assert(s.subrange(s.len() - 4, s.len() as int) =~= t);
    lemma_u32_be_round_trip(adler_acc(b));
}

/// Decoding inverts encoding for the gzip container: given that raw
/// inflation inverts the engine's raw deflation on this stream (which every
/// compress call establishes for its own output), decoding an encoded gzip
/// stream yields the original bytes.
pub proof fn lemma_gzip_round_trip(level: int, b: Seq<u8>)
    requires
        inflate_of(deflate_of(level, b)) == Some(b),
    ensures
        gzip_decode(gzip_encode(level, b)) == Some(b),
{
    let d = deflate_of(level, b);
    let tc = spec_u32_to_le_bytes(crc_acc(b));
    let isz = (b.len() as int % 0x1_0000_0000) as u32;
    let ti = spec_u32_to_le_bytes(isz);
    let s = gzip_encode(level, b);
    vstd::bytes::lemma_auto_spec_u32_to_from_le_bytes();
    assert(s.len() == 10 + d.len() + 8);
    assert(s[0] == 0x1f && s[1] == 0x8b && s[2] == 8 && s[3] == 0);
    assert(0u8 & 0xe0 == 0) by (bit_vector);
    assert(0u8 & 0x04 == 0) by (bit_vector);
    assert(0u8 & 0x08 == 0) by (bit_vector);
    assert(0u8 & 0x10 == 0) by (bit_vector);
    assert(0u8 & 0x02 == 0) by (bit_vector);
    assert(gzip_header_len(s) == Some(10int));
    assert(s.subrange(10, s.len() - 8) =~= d);
    assert(s.subrange(s.len() - 8, s.len() - 4) =~= tc);
    assert(s.subrange(s.len() - 4, s.len() as int) =~= ti);
}

/// A 4-byte big-endian encoding is recovered from the value it stands for.
proof fn lemma_u32_to_from_be(s: Seq<u8>)
    requires
        s.len() == 4,
    ensures
        spec_u32_to_be_bytes(spec_u32_from_be_bytes(s)) =~= s,
{
    let x = spec_u32_from_be_bytes(s);
    let s0 = s[0] as u32;
    let s1 = s[1] as u32;
    let s2 = s[2] as u32;
    let s3 = s[3] as u32;
    assert((s0 < 256 && s1 < 256 && s2 < 256 && s3 < 256 && x == (s0 << 24) | (s1 << 16) | (s2
        << 8) | s3) ==> s0 == ((x >> 24) & 0xff) && s1 == ((x >> 16) & 0xff) && s2 == ((x >> 8)
        & 0xff) && s3 == (x & 0xff)) by (bit_vector);
}

/// Two distinct 4-byte sequences stand for distinct big-endian values.
proof fn lemma_u32_be_bytes_injective(s: Seq<u8>, t: Seq<u8>)
    requires
        s.len() == 4,
        t.len() == 4,
        s != t,
    ensures
        spec_u32_from_be_bytes(s) != spec_u32_from_be_bytes(t),
{
    if spec_u32_from_be_bytes(s) == spec_u32_from_be_bytes(t) {
        lemma_u32_to_from_be(s);
        lemma_u32_to_from_be(t);
    }
}

/// Two distinct 4-byte sequences stand for distinct little-endian values.
proof fn lemma_u32_le_bytes_injective(s: Seq<u8>, t: Seq<u8>)
    requires
        s.len() == 4,
        t.len() == 4,
        s != t,
    ensures
        spec_u32_from_le_bytes(s) != spec_u32_from_le_bytes(t),
{
    if spec_u32_from_le_bytes(s) == spec_u32_from_le_bytes(t) {
        vstd::bytes::lemma_auto_spec_u32_to_from_le_bytes();
        assert(spec_u32_to_le_bytes(spec_u32_from_le_bytes(s)) == s);
        assert(spec_u32_to_le_bytes(spec_u32_from_le_bytes(t)) == t);
    }
}

/// A found zero byte lies at or after the scan start, inside the sequence.
proof fn lemma_find_nul_some(s: Seq<u8>, i: int, j: int)
    requires
        find_nul(s, i) == Some(j),
    ensures
        i <= j < s.len(),
        s[j] == 0,
    decreases s.len() - i,
{
    if i < 0 || i >= s.len() {
        assert(false);
    } else if s[i] == 0 {
    } else {
        lemma_find_nul_some(s, i + 1, j);
    }
}

/// The scan result depends only on the bytes up to the zero it finds.
proof fn lemma_find_nul_stable(s: Seq<u8>, t: Seq<u8>, i: int, j: int)
    requires
        find_nul(s, i) == Some(j),
        t.len() == s.len(),
        forall|k: int| i <= k <= j ==> t[k] == s[k],
    ensures
        find_nul(t, i) == Some(j),
    decreases s.len() - i,
{
    lemma_find_nul_some(s, i, j);
    if s[i] == 0 {
    } else {
        lemma_find_nul_stable(s, t, i + 1, j);
    }
}

/// A parsed gzip header is at least the fixed ten bytes long.
proof fn lemma_gzip_header_len_bounds(s: Seq<u8>, h: int)
    requires
        gzip_header_len(s) == Some(h),
    ensures
        10 <= h,
{
    let flg = s[3];
    let i1 = gzip_after_extra(s, 10, flg)->Some_0;
    let i2 = gzip_after_name(s, i1, flg)->Some_0;
    let i3 = gzip_after_comment(s, i2, flg)->Some_0;
    if flg & 0x08 != 0 {
        lemma_find_nul_some(s, i1, i2 - 1);
    }
    if flg & 0x10 != 0 {
        lemma_find_nul_some(s, i2, i3 - 1);
    }
}

/// The header scan reads only the bytes below the header length it returns,
/// so changing later bytes does not disturb it.
proof fn lemma_gzip_header_stable(s: Seq<u8>, t: Seq<u8>, h: int)
    requires
        gzip_header_len(s) == Some(h),
        t.len() == s.len(),
        forall|k: int| 0 <= k < h ==> t[k] == s[k],
    ensures
        gzip_header_len(t) == Some(h),
{
    let flg = s[3];
    let i1 = gzip_after_extra(s, 10, flg)->Some_0;
    let i2 = gzip_after_name(s, i1, flg)->Some_0;
    let i3 = gzip_after_comment(s, i2, flg)->Some_0;
    // Each stage moves forward, so every byte any stage reads lies below h.
    assert(10 <= i1);
    if flg & 0x08 != 0 {
        lemma_find_nul_some(s, i1, i2 - 1);
    }
    assert(i1 <= i2);
    if flg & 0x10 != 0 {
        lemma_find_nul_some(s, i2, i3 - 1);
    }
    assert(i2 <= i3);
    assert(i3 <= h);
    assert(t[0] == s[0] && t[1] == s[1] && t[2] == s[2] && t[3] == s[3]);
    assert(gzip_after_extra(t, 10, flg) == Some(i1));
    if flg & 0x08 != 0 {
        lemma_find_nul_stable(s, t, i1, i2 - 1);
    }
    assert(gzip_after_name(t, i1, flg) == Some(i2));
    if flg & 0x10 != 0 {
        lemma_find_nul_stable(s, t, i2, i3 - 1);
    }
    assert(gzip_after_comment(t, i2, flg) == Some(i3));
    assert(gzip_after_hcrc(t, i3, flg) == Some(h));
}

/// Corruption detection, gzip magic bytes: replacing the first byte of a
/// stream that decodes successfully with any other value makes decoding
/// fail.
pub proof fn lemma_gzip_first_byte_corruption(s: Seq<u8>, x: u8)
    requires
        gzip_decode(s) is Some,
        x != s[0],
    ensures
        gzip_decode(s.update(0, x)) is None,
{
    let t = s.update(0, x);
    assert(s[0] == 0x1f);
    assert(t[0] == x);
}

/// Corruption detection, gzip trailer: replacing any byte of the 8-byte
/// trailer (the CRC-32 field or the ISIZE field) of a stream that decodes
/// successfully with any other value makes decoding fail.
pub proof fn lemma_gzip_trailer_corruption(s: Seq<u8>, k: int, x: u8)
    requires
        gzip_decode(s) is Some,
        s.len() - 8 <= k < s.len(),
        x != s[k],
    ensures
        gzip_decode(s.update(k, x)) is None,
{
    let t = s.update(k, x);
    let h = gzip_header_len(s)->Some_0;
    lemma_gzip_header_len_bounds(s, h);
    let p = inflate_of(s.subrange(h, s.len() - 8))->Some_0;
    assert(h + 8 <= s.len());
    lemma_gzip_header_stable(s, t, h);
    assert(t.subrange(h, t.len() - 8) =~= s.subrange(h, s.len() - 8));
    let crc_s = s.subrange(s.len() - 8, s.len() - 4);
    let crc_t = t.subrange(t.len() - 8, t.len() - 4);
    let isz_s = s.subrange(s.len() - 4, s.len() as int);
    let isz_t = t.subrange(t.len() - 4, t.len() as int);
    if k < s.len() - 4 {
        assert(crc_t[k - (s.len() - 8)] == x);
        assert(crc_t != crc_s);
        lemma_u32_le_bytes_injective(crc_s, crc_t);
        assert(spec_u32_from_le_bytes(crc_t) != crc_acc(p));
    } else {
        assert(isz_t[k - (s.len() - 4)] == x);
        assert(isz_t != isz_s);
        lemma_u32_le_bytes_injective(isz_s, isz_t);
        assert(spec_u32_from_le_bytes(isz_t) as int != p.len() as int % 0x1_0000_0000);
    }
}

/// Corruption detection, zlib header: replacing the first byte (the CMF
/// field) of a stream that decodes successfully with any other value makes
/// decoding fail: no two distinct CMF bytes are valid for the same FLG
/// byte, since valid CMF values agree modulo 16, lie below 128, and must
/// keep CMF*256+FLG a multiple of 31.
pub proof fn lemma_zlib_first_byte_corruption(s: Seq<u8>, x: u8)
    requires
        zlib_decode(s) is Some,
        x != s[0],
    ensures
        zlib_decode(s.update(0, x)) is None,
{
    let t = s.update(0, x);
    let c = s[0];
    let f = s[1];
    assert(t[0] == x && t[1] == f);
    if zlib_header_ok(x, f) {
        assert(c & 0x0f == 8 ==> c % 16 == 8) by (bit_vector);
        assert((c >> 4) <= 7 ==> c < 128) by (bit_vector);
        assert(x & 0x0f == 8 ==> x % 16 == 8) by (bit_vector);
        assert((x >> 4) <= 7 ==> x < 128) by (bit_vector);
        assert(false);
    }
}

/// Corruption detection, zlib trailer: replacing any byte of the 4-byte
/// Adler-32 trailer of a stream that decodes successfully with any other
/// value makes decoding fail.
pub proof fn lemma_zlib_trailer_corruption(s: Seq<u8>, k: int, x: u8)
    requires
        zlib_decode(s) is Some,
        s.len() - 4 <= k < s.len(),
        x != s[k],
    ensures
        zlib_decode(s.update(k, x)) is None,
{
    let t = s.update(k, x);
    let p = inflate_of(s.subrange(2, s.len() - 4))->Some_0;
    assert(t[0] == s[0] && t[1] == s[1]);
    assert(t.subrange(2, t.len() - 4) =~= s.subrange(2, s.len() - 4));
    let ad_s = s.subrange(s.len() - 4, s.len() as int);
    let ad_t = t.subrange(t.len() - 4, t.len() as int);
    assert(ad_t[k - (s.len() - 4)] == x);
    assert(ad_t != ad_s);
    lemma_u32_be_bytes_injective(ad_s, ad_t);
    assert(spec_u32_from_be_bytes(ad_t) != adler_acc(p));
}

/// Overwrites the first `src.len()` bytes of `out` with `src`, leaving the
/// rest of `out` and its length unchanged.
pub(crate) fn copy_into_prefix(out: &mut Vec<u8>, src: &[u8])
    requires
        src@.len() <= old(out)@.len(),
    ensures
        final(out)@.len() == old(out)@.len(),
        final(out)@ == src@ + old(out)@.skip(src@.len() as int),
{
    let n = src.len();
    let mut i: usize = 0;
    while i < n
        invariant
            i <= n,
            n == src@.len(),
            n <= out@.len(),
            out@.len() == old(out)@.len(),
            forall|k: int| 0 <= k < i ==> out@[k] == src@[k],
            forall|k: int| i <= k < out@.len() ==> out@[k] == old(out)@[k],
        decreases n - i,
    {
        out.set(i, src[i]);
        i += 1;
    }
    proof {
        assert(out@ =~= src@ + old(out)@.skip(n as int));
    }
}

} // verus!
