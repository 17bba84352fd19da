//! Canonical-minimal MessagePack encodings: the byte sequence each value
//! denotes on the wire, and writers that emit exactly those bytes through a
//! vectored sink. Every value is written with the smallest marker that
//! represents it losslessly; floats are width-faithful and never minimized.

use vstd::prelude::*;
use vstd::string::StringSliceAdditionalSpecFns;
use crate::io::{flat, flat_prefix, views, IoError, WriteSlices};

verus! {

/// The two big-endian bytes of a 16-bit value.
pub open spec fn be2_of(v: u16) -> Seq<u8> {
    seq![(v >> 8) as u8, v as u8]
}

/// The four big-endian bytes of a 32-bit value.
pub open spec fn be4_of(v: u32) -> Seq<u8> {
    seq![(v >> 24) as u8, (v >> 16) as u8, (v >> 8) as u8, v as u8]
}

/// The eight big-endian bytes of a 64-bit value.
pub open spec fn be8_of(v: u64) -> Seq<u8> {
    seq![
        (v >> 56) as u8,
        (v >> 48) as u8,
        (v >> 40) as u8,
        (v >> 32) as u8,
        (v >> 24) as u8,
        (v >> 16) as u8,
        (v >> 8) as u8,
        v as u8,
    ]
}

/// The encoding of nil.
pub open spec fn enc_nil() -> Seq<u8> {
    seq![0xc0u8]
}

/// The encoding of a boolean.
pub open spec fn enc_bool(v: bool) -> Seq<u8> {
    if v {
        seq![0xc3u8]
    } else {
        seq![0xc2u8]
    }
}

/// The minimal-width encoding of an unsigned integer.
pub open spec fn enc_uint(v: u64) -> Seq<u8> {
    if v < 0x80 {
        seq![v as u8]
    } else if v <= 0xff {
        seq![0xccu8, v as u8]
    } else if v <= 0xffff {
        seq![0xcdu8] + be2_of(v as u16)
    } else if v <= 0xffff_ffff {
        seq![0xceu8] + be4_of(v as u32)
    } else {
        seq![0xcfu8] + be8_of(v)
    }
}

/// The minimal-width encoding of a signed integer: a non-negative value is
/// written in its unsigned form, a negative one with the smallest signed
/// marker that holds it.
pub open spec fn enc_int(v: i64) -> Seq<u8> {
    if v >= 0 {
        enc_uint(v as u64)
    } else if v >= -32 {
        seq![v as u8]
    } else if v >= -0x80 {
        seq![0xd0u8, v as u8]
    } else if v >= -0x8000 {
        seq![0xd1u8] + be2_of(v as u16)
    } else if v >= -0x8000_0000 {
        seq![0xd2u8] + be4_of(v as u32)
    } else {
        seq![0xd3u8] + be8_of(v as u64)
    }
}

/// The encoding of a 32-bit float given by its bit pattern: width-faithful,
/// never promoted or demoted.
pub open spec fn enc_f32(bits: u32) -> Seq<u8> {
    seq![0xcau8] + be4_of(bits)
}

/// The encoding of a 64-bit float given by its bit pattern.
pub open spec fn enc_f64(bits: u64) -> Seq<u8> {
    seq![0xcbu8] + be8_of(bits)
}

/// The string marker and length prefix for a payload of `len` bytes.
pub open spec fn str_header(len: int) -> Seq<u8>
    recommends
        0 <= len <= 0xffff_ffff,
{
    if len < 32 {
        seq![(0xa0 + len) as u8]
    } else if len <= 0xff {
        seq![0xd9u8, len as u8]
    } else if len <= 0xffff {
        seq![0xdau8] + be2_of(len as u16)
    } else {
        seq![0xdbu8] + be4_of(len as u32)
    }
}

/// The encoding of a string from its UTF-8 bytes.
pub open spec fn enc_str(b: Seq<u8>) -> Seq<u8> {
    str_header(b.len() as int) + b
}

/// The binary marker and length prefix for a payload of `len` bytes.
pub open spec fn bin_header(len: int) -> Seq<u8>
    recommends
        0 <= len <= 0xffff_ffff,
{
    if len <= 0xff {
        seq![0xc4u8, len as u8]
    } else if len <= 0xffff {
        seq![0xc5u8] + be2_of(len as u16)
    } else {
        seq![0xc6u8] + be4_of(len as u32)
    }
}

/// The encoding of an opaque byte blob.
pub open spec fn enc_bin(b: Seq<u8>) -> Seq<u8> {
    bin_header(b.len() as int) + b
}

/// The marker and length prefix announcing an array of `n` elements.
pub open spec fn array_header(n: int) -> Seq<u8>
    recommends
        0 <= n <= 0xffff_ffff,
{
    if n < 16 {
        seq![(0x90 + n) as u8]
    } else if n <= 0xffff {
        seq![0xdcu8] + be2_of(n as u16)
    } else {
        seq![0xddu8] + be4_of(n as u32)
    }
}

/// The marker and length prefix announcing a map of `n` key-value pairs.
pub open spec fn map_header(n: int) -> Seq<u8>
    recommends
        0 <= n <= 0xffff_ffff,
{
    if n < 16 {
        seq![(0x80 + n) as u8]
    } else if n <= 0xffff {
        seq![0xdeu8] + be2_of(n as u16)
    } else {
        seq![0xdfu8] + be4_of(n as u32)
    }
}

/// The ext marker, length prefix if any, and tag byte for a payload of
/// `len` bytes: the minimal fixed form when the length is exactly 1, 2, 4,
/// 8 or 16, else the smallest length-prefixed form that fits.
pub open spec fn ext_header(tag: i8, len: int) -> Seq<u8>
    recommends
        0 <= len <= 0xffff_ffff,
{
    if len == 1 {
        seq![0xd4u8, tag as u8]
    } else if len == 2 {
        seq![0xd5u8, tag as u8]
    } else if len == 4 {
        seq![0xd6u8, tag as u8]
    } else if len == 8 {
        seq![0xd7u8, tag as u8]
    } else if len == 16 {
        seq![0xd8u8, tag as u8]
    } else if len < 0x100 {
        seq![0xc7u8, len as u8, tag as u8]
    } else if len < 0x1_0000 {
        seq![0xc8u8] + be2_of(len as u16) + seq![tag as u8]
    } else {
        seq![0xc9u8] + be4_of(len as u32) + seq![tag as u8]
    }
}

/// The encoding of an ext value: tagged opaque payload.
pub open spec fn enc_ext(tag: i8, p: Seq<u8>) -> Seq<u8> {
    ext_header(tag, p.len() as int) + p
}

/// Writes one header slice as a single unit.
pub(crate) fn emit1<W: WriteSlices>(w: &mut W, hdr: &[u8]) -> (r: Result<(), IoError>)
    ensures
        final(w).reliable() == old(w).reliable(),
        r is Ok ==> final(w).sink() == old(w).sink() + hdr@,
        old(w).reliable() ==> r is Ok,
{
    let bufs: [&[u8]; 1] = [hdr];
    let r = w.write_slices(bufs.as_slice());
    proof {
        let vs = views(bufs@);
        assert(vs =~= seq![hdr@]);
        assert(flat_prefix(vs, 0) =~= Seq::empty());
        assert(flat(vs) =~= hdr@);
    }
    r
}

/// Writes a header slice followed by a payload slice as a single unit.
pub(crate) fn emit2<W: WriteSlices>(w: &mut W, hdr: &[u8], payload: &[u8]) -> (r: Result<
    (),
    IoError,
>)
    ensures
        final(w).reliable() == old(w).reliable(),
        r is Ok ==> final(w).sink() == old(w).sink() + hdr@ + payload@,
        old(w).reliable() ==> r is Ok,
{
    let bufs: [&[u8]; 2] = [hdr, payload];
    let r = w.write_slices(bufs.as_slice());
    proof {
        let vs = views(bufs@);
        assert(vs =~= seq![hdr@, payload@]);
        assert(flat_prefix(vs, 0) =~= Seq::empty());
        assert(flat_prefix(vs, 1) =~= hdr@);
        assert(flat(vs) =~= hdr@ + payload@);
    }
    r
}

/// Emits nil.
pub fn write_nil<W: WriteSlices>(w: &mut W) -> (r: Result<(), IoError>)
    ensures
        final(w).reliable() == old(w).reliable(),
        r is Ok ==> final(w).sink() == old(w).sink() + enc_nil(),
        old(w).reliable() ==> r is Ok,
{
    let hdr: [u8; 1] = [0xc0];
    emit1(w, hdr.as_slice())
}

/// Emits a boolean.
pub fn write_bool<W: WriteSlices>(w: &mut W, v: bool) -> (r: Result<(), IoError>)
    ensures
        final(w).reliable() == old(w).reliable(),
        r is Ok ==> final(w).sink() == old(w).sink() + enc_bool(v),
        old(w).reliable() ==> r is Ok,
{
    let hdr: [u8; 1] = [if v { 0xc3 } else { 0xc2 }];
    emit1(w, hdr.as_slice())
}

/// Emits an unsigned integer with the smallest marker that holds its value.
pub fn write_u64<W: WriteSlices>(w: &mut W, v: u64) -> (r: Result<(), IoError>)
    ensures
        final(w).reliable() == old(w).reliable(),
        r is Ok ==> final(w).sink() == old(w).sink() + enc_uint(v),
        old(w).reliable() ==> r is Ok,
{
    if v < 0x80 {
        let hdr: [u8; 1] = [v as u8];
        emit1(w, hdr.as_slice())
    } else if v <= 0xff {
        let hdr: [u8; 2] = [0xcc, v as u8];
        emit1(w, hdr.as_slice())
    } else if v <= 0xffff {
        let t = v as u16;
        let hdr: [u8; 3] = [0xcd, (t >> 8) as u8, #[verifier::truncate] (t as u8)];
        emit1(w, hdr.as_slice())
    } else if v <= 0xffff_ffff {
        let t = v as u32;
        let hdr: [u8; 5] = [
            0xce,
            (t >> 24) as u8,
            #[verifier::truncate] ((t >> 16) as u8),
            #[verifier::truncate] ((t >> 8) as u8),
            #[verifier::truncate] (t as u8),
        ];
        emit1(w, hdr.as_slice())
    } else {
        let hdr: [u8; 9] = [
            0xcf,
            (v >> 56) as u8,
            #[verifier::truncate] ((v >> 48) as u8),
            #[verifier::truncate] ((v >> 40) as u8),
            #[verifier::truncate] ((v >> 32) as u8),
            #[verifier::truncate] ((v >> 24) as u8),
            #[verifier::truncate] ((v >> 16) as u8),
            #[verifier::truncate] ((v >> 8) as u8),
            #[verifier::truncate] (v as u8),
        ];
        emit1(w, hdr.as_slice())
    }
}

/// Emits a signed integer with the smallest marker that holds its value;
/// a value in the fixint range takes the one-byte form whatever its source
/// width.
pub fn write_i64<W: WriteSlices>(w: &mut W, v: i64) -> (r: Result<(), IoError>)
    ensures
        final(w).reliable() == old(w).reliable(),
        r is Ok ==> final(w).sink() == old(w).sink() + enc_int(v),
        old(w).reliable() ==> r is Ok,
{
    if v >= 0 {
        write_u64(w, v as u64)
    } else if v >= -32 {
        let hdr: [u8; 1] = [#[verifier::truncate] (v as u8)];
        emit1(w, hdr.as_slice())
    } else if v >= -0x80 {
        let hdr: [u8; 2] = [0xd0, #[verifier::truncate] (v as u8)];
        emit1(w, hdr.as_slice())
    } else if v >= -0x8000 {
        let t = #[verifier::truncate] (v as u16);
        let hdr: [u8; 3] = [0xd1, (t >> 8) as u8, #[verifier::truncate] (t as u8)];
        emit1(w, hdr.as_slice())
    } else if v >= -0x8000_0000 {
        let t = #[verifier::truncate] (v as u32);
        let hdr: [u8; 5] = [
            0xd2,
            (t >> 24) as u8,
            #[verifier::truncate] ((t >> 16) as u8),
            #[verifier::truncate] ((t >> 8) as u8),
            #[verifier::truncate] (t as u8),
        ];
        emit1(w, hdr.as_slice())
    } else {
        let t = #[verifier::truncate] (v as u64);
        let hdr: [u8; 9] = [
            0xd3,
            (t >> 56) as u8,
            #[verifier::truncate] ((t >> 48) as u8),
            #[verifier::truncate] ((t >> 40) as u8),
            #[verifier::truncate] ((t >> 32) as u8),
            #[verifier::truncate] ((t >> 24) as u8),
            #[verifier::truncate] ((t >> 16) as u8),
            #[verifier::truncate] ((t >> 8) as u8),
            #[verifier::truncate] (t as u8),
        ];
        emit1(w, hdr.as_slice())
    }
}

/// Emits a 32-bit float from its bit pattern, always with the `F32` marker.
pub fn write_f32_bits<W: WriteSlices>(w: &mut W, bits: u32) -> (r: Result<(), IoError>)
    ensures
        final(w).reliable() == old(w).reliable(),
        r is Ok ==> final(w).sink() == old(w).sink() + enc_f32(bits),
        old(w).reliable() ==> r is Ok,
{
    let hdr: [u8; 5] = [
        0xca,
        (bits >> 24) as u8,
        #[verifier::truncate] ((bits >> 16) as u8),
        #[verifier::truncate] ((bits >> 8) as u8),
        #[verifier::truncate] (bits as u8),
    ];
    emit1(w, hdr.as_slice())
}

/// Emits a 64-bit float from its bit pattern, always with the `F64` marker.
pub fn write_f64_bits<W: WriteSlices>(w: &mut W, bits: u64) -> (r: Result<(), IoError>)
    ensures
        final(w).reliable() == old(w).reliable(),
        r is Ok ==> final(w).sink() == old(w).sink() + enc_f64(bits),
        old(w).reliable() ==> r is Ok,
{
    let hdr: [u8; 9] = [
        0xcb,
        (bits >> 56) as u8,
        #[verifier::truncate] ((bits >> 48) as u8),
        #[verifier::truncate] ((bits >> 40) as u8),
        #[verifier::truncate] ((bits >> 32) as u8),
        #[verifier::truncate] ((bits >> 24) as u8),
        #[verifier::truncate] ((bits >> 16) as u8),
        #[verifier::truncate] ((bits >> 8) as u8),
        #[verifier::truncate] (bits as u8),
    ];
    emit1(w, hdr.as_slice())
}

/// Emits a string: the smallest string marker for its byte length, then its
/// UTF-8 bytes. A string longer than the 32-bit length space is rejected as
/// invalid input before anything is written.
pub fn write_str<W: WriteSlices>(w: &mut W, s: &str) -> (r: Result<(), IoError>)
    ensures
        final(w).reliable() == old(w).reliable(),
        r is Ok ==> s.spec_bytes().len() <= 0xffff_ffff && final(w).sink() == old(w).sink()
            + enc_str(s.spec_bytes()),
        old(w).reliable() && s.spec_bytes().len() <= 0xffff_ffff ==> r is Ok,
        s.spec_bytes().len() > 0xffff_ffff ==> r == Err::<(), IoError>(IoError::InvalidInput)
            && *final(w) == *old(w),
{
    let b = s.as_bytes();
    write_str_bytes(w, b)
}

/// Emits a string from bytes already known to be its UTF-8 form.
pub fn write_str_bytes<W: WriteSlices>(w: &mut W, b: &[u8]) -> (r: Result<(), IoError>)
    ensures
        final(w).reliable() == old(w).reliable(),
        r is Ok ==> b@.len() <= 0xffff_ffff && final(w).sink() == old(w).sink() + enc_str(b@),
        old(w).reliable() && b@.len() <= 0xffff_ffff ==> r is Ok,
        b@.len() > 0xffff_ffff ==> r == Err::<(), IoError>(IoError::InvalidInput) && *final(w)
            == *old(w),
{
    let len = b.len();
    if len < 32 {
        let hdr: [u8; 1] = [0xa0 + len as u8];
        emit2(w, hdr.as_slice(), b)
    } else if len <= 0xff {
        let hdr: [u8; 2] = [0xd9, len as u8];
        emit2(w, hdr.as_slice(), b)
    } else if len <= 0xffff {
        let t = len as u16;
        let hdr: [u8; 3] = [0xda, (t >> 8) as u8, #[verifier::truncate] (t as u8)];
        emit2(w, hdr.as_slice(), b)
    } else if len <= 0xffff_ffff {
        let t = len as u32;
        let hdr: [u8; 5] = [
            0xdb,
            (t >> 24) as u8,
            #[verifier::truncate] ((t >> 16) as u8),
            #[verifier::truncate] ((t >> 8) as u8),
            #[verifier::truncate] (t as u8),
        ];
        emit2(w, hdr.as_slice(), b)
    } else {
        Err(IoError::InvalidInput)
    }
}

/// Emits an opaque byte blob with the smallest binary marker for its length.
pub fn write_bin<W: WriteSlices>(w: &mut W, b: &[u8]) -> (r: Result<(), IoError>)
    ensures
        final(w).reliable() == old(w).reliable(),
        r is Ok ==> b@.len() <= 0xffff_ffff && final(w).sink() == old(w).sink() + enc_bin(b@),
        old(w).reliable() && b@.len() <= 0xffff_ffff ==> r is Ok,
        b@.len() > 0xffff_ffff ==> r == Err::<(), IoError>(IoError::InvalidInput) && *final(w)
            == *old(w),
{
    let len = b.len();
    if len <= 0xff {
        let hdr: [u8; 2] = [0xc4, len as u8];
        emit2(w, hdr.as_slice(), b)
    } else if len <= 0xffff {
        let t = len as u16;
        let hdr: [u8; 3] = [0xc5, (t >> 8) as u8, #[verifier::truncate] (t as u8)];
        emit2(w, hdr.as_slice(), b)
    } else if len <= 0xffff_ffff {
        let t = len as u32;
        let hdr: [u8; 5] = [
            0xc6,
            (t >> 24) as u8,
            #[verifier::truncate] ((t >> 16) as u8),
            #[verifier::truncate] ((t >> 8) as u8),
            #[verifier::truncate] (t as u8),
        ];
        emit2(w, hdr.as_slice(), b)
    } else {
        Err(IoError::InvalidInput)
    }
}

/// Emits the header announcing an array of `n` elements; the caller then
/// emits exactly `n` values.
pub fn write_array_len<W: WriteSlices>(w: &mut W, n: usize) -> (r: Result<(), IoError>)
    ensures
        final(w).reliable() == old(w).reliable(),
        r is Ok ==> n <= 0xffff_ffff && final(w).sink() == old(w).sink() + array_header(n as int),
        old(w).reliable() && n <= 0xffff_ffff ==> r is Ok,
        n > 0xffff_ffff ==> r == Err::<(), IoError>(IoError::InvalidInput) && *final(w) == *old(w),
{
    if n < 16 {
        let hdr: [u8; 1] = [0x90 + n as u8];
        emit1(w, hdr.as_slice())
    } else if n <= 0xffff {
        let t = n as u16;
        let hdr: [u8; 3] = [0xdc, (t >> 8) as u8, #[verifier::truncate] (t as u8)];
        emit1(w, hdr.as_slice())
    } else if n <= 0xffff_ffff {
        let t = n as u32;
        let hdr: [u8; 5] = [
            0xdd,
            (t >> 24) as u8,
            #[verifier::truncate] ((t >> 16) as u8),
            #[verifier::truncate] ((t >> 8) as u8),
            #[verifier::truncate] (t as u8),
        ];
        emit1(w, hdr.as_slice())
    } else {
        Err(IoError::InvalidInput)
    }
}

/// Emits the header announcing a map of `n` key-value pairs; the caller then
/// emits exactly `2 * n` values, alternating key and value.
pub fn write_map_len<W: WriteSlices>(w: &mut W, n: usize) -> (r: Result<(), IoError>)
    ensures
        final(w).reliable() == old(w).reliable(),
        r is Ok ==> n <= 0xffff_ffff && final(w).sink() == old(w).sink() + map_header(n as int),
        old(w).reliable() && n <= 0xffff_ffff ==> r is Ok,
        n > 0xffff_ffff ==> r == Err::<(), IoError>(IoError::InvalidInput) && *final(w) == *old(w),
{
    if n < 16 {
        let hdr: [u8; 1] = [0x80 + n as u8];
        emit1(w, hdr.as_slice())
    } else if n <= 0xffff {
        let t = n as u16;
        let hdr: [u8; 3] = [0xde, (t >> 8) as u8, #[verifier::truncate] (t as u8)];
        emit1(w, hdr.as_slice())
    } else if n <= 0xffff_ffff {
        let t = n as u32;
        let hdr: [u8; 5] = [
            0xdf,
            (t >> 24) as u8,
            #[verifier::truncate] ((t >> 16) as u8),
            #[verifier::truncate] ((t >> 8) as u8),
            #[verifier::truncate] (t as u8),
        ];
        emit1(w, hdr.as_slice())
    } else {
        Err(IoError::InvalidInput)
    }
}

} // verus!
