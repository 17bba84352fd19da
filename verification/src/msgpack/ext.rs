//! Extension codec: the `ext` family of values (fixed 1/2/4/8/16-byte and
//! 8/16/32-bit-length-prefixed), including the reserved timestamp extension
//! (tag -1) in its 4-, 8- and 12-byte forms.

use vstd::prelude::*;
use crate::io::{be_u16, be_u32, be_u64, IoError, Reader, WriteSlices};
use crate::msgpack::encode::{
    be2_of, be4_of, be8_of, emit1, emit2, enc_ext, ext_header,
};
use crate::msgpack::marker::{marker_of, Marker};

verus! {

/// A point in time: non-leap seconds since the epoch and the nanosecond part.
/// A structured view over the payload of an ext value with tag -1.
#[derive(Clone, Copy, Debug, PartialEq, Eq, Structural)]
pub struct Timestamp {
    pub seconds: i64,
    pub nanoseconds: u32,
}

/// Whether a (seconds, nanoseconds) pair denotes an instant inside the
/// calendar range that the date-time library represents.
pub uninterp spec fn calendar_ok(secs: int, ns: int) -> bool;

/// Relies on chrono's `DateTime::<Utc>::from_timestamp`: it returns `Some`
/// or `None` as a function of the pair alone, `None` exactly on an
/// out-of-range number of seconds or an invalid nanosecond count.
#[verifier::external_body]
fn in_calendar_range(secs: i64, ns: u32) -> (r: bool)
    ensures
        r == calendar_ok(secs as int, ns as int),
{
    chrono::DateTime::<chrono::Utc>::from_timestamp(secs, ns).is_some()
}

/// The packed timestamp payload for a (seconds, nanoseconds) pair: the
/// 4-byte form when the packed word fits in 32 bits, the 8-byte form when
/// the seconds fit in 34 bits, else the 12-byte form.
pub open spec fn ts_payload(secs: i64, ns: u32) -> Seq<u8>
    recommends
        ns < 1_000_000_000,
{
    if 0 <= secs < 0x4_0000_0000 {
        let v = (((ns as u64) << 34) | (secs as u64)) as u64;
        if v <= 0xffff_ffff {
            be4_of(v as u32)
        } else {
            be8_of(v)
        }
    } else {
        be4_of(ns) + be8_of(secs as u64)
    }
}

/// The (seconds, nanoseconds) pair held by a timestamp payload, decided by
/// its length alone; `None` for a length other than 4, 8 or 12.
pub open spec fn ts_unpack(b: Seq<u8>) -> Option<(i64, u32)> {
    if b.len() == 4 {
        Some((be_u32(b, 0) as i64, 0u32))
    } else if b.len() == 8 {
        let v = be_u64(b, 0);
        Some((((v & 0x3_ffff_ffff) as i64), (v >> 34) as u32))
    } else if b.len() == 12 {
        Some((be_u64(b, 4) as i64, be_u32(b, 0)))
    } else {
        None
    }
}

/// What reading a timestamp payload of declared length `len` at `pos`
/// returns: the decoded instant and the end offset, or the error. A length
/// other than 4, 8 or 12 and an instant outside the calendar range are both
/// invalid input; a short buffer is an unexpected end of file.
pub open spec fn ts_read(b: Seq<u8>, pos: int, len: int) -> Result<(Timestamp, int), IoError> {
    if len != 4 && len != 8 && len != 12 {
        Err(IoError::InvalidInput)
    } else if pos + len > b.len() {
        Err(IoError::UnexpectedEof)
    } else {
        let (s, ns) = ts_unpack(b.subrange(pos, pos + len)).unwrap();
        if calendar_ok(s as int, ns as int) {
            Ok((Timestamp { seconds: s, nanoseconds: ns }, pos + len))
        } else {
            Err(IoError::InvalidInput)
        }
    }
}

/// Reads a timestamp payload of declared length `len`: length 4 holds
/// unsigned seconds; length 8 packs nanoseconds in the top 30 bits and
/// seconds in the low 34; length 12 holds nanoseconds then signed seconds.
/// The decoded pair must denote a representable calendar instant.
pub fn read_timestamp(reader: &mut Reader, len: u32) -> (r: Result<Timestamp, IoError>)
    requires
        old(reader).wf(),
    ensures
        final(reader).buf() == old(reader).buf(),
        final(reader).wf(),
        match r {
            Ok(ts) => ts_read(old(reader).buf(), old(reader).at(), len as int) == Ok::<
                (Timestamp, int),
                IoError,
            >((ts, final(reader).at())),
            Err(e) => ts_read(old(reader).buf(), old(reader).at(), len as int) == Err::<
                (Timestamp, int),
                IoError,
            >(e),
        },
{
    let ghost b = old(reader).buf();
    let ghost p = old(reader).at();
    let (seconds, nanoseconds): (i64, u32) = if len == 4 {
        let v = match reader.read_u32() {
            Ok(v) => v,
            Err(e) => {
                return Err(e);
            },
        };
        (v as i64, 0u32)
    } else if len == 8 {
        let v = match reader.read_u64() {
            Ok(v) => v,
            Err(e) => {
                return Err(e);
            },
        };
        proof {
            assert(b.subrange(p, p + 8)[0] == b[p]);
            assert(b.subrange(p, p + 8)[1] == b[p + 1]);
            assert(b.subrange(p, p + 8)[2] == b[p + 2]);
            assert(b.subrange(p, p + 8)[3] == b[p + 3]);
            assert(b.subrange(p, p + 8)[4] == b[p + 4]);
            assert(b.subrange(p, p + 8)[5] == b[p + 5]);
            assert(b.subrange(p, p + 8)[6] == b[p + 6]);
            assert(b.subrange(p, p + 8)[7] == b[p + 7]);
        }
        ((v & 0x3_ffff_ffff) as i64, (v >> 34) as u32)
    } else if len == 12 {
        let ns = match reader.read_u32() {
            Ok(v) => v,
            Err(e) => {
                return Err(e);
            },
        };
        let s = match reader.read_i64() {
            Ok(v) => v,
            Err(e) => {
                return Err(e);
            },
        };
        proof {
            assert(b.subrange(p, p + 12)[0] == b[p]);
            assert(b.subrange(p, p + 12)[1] == b[p + 1]);
            assert(b.subrange(p, p + 12)[2] == b[p + 2]);
            assert(b.subrange(p, p + 12)[3] == b[p + 3]);
            assert(b.subrange(p, p + 12)[4] == b[p + 4]);
            assert(b.subrange(p, p + 12)[5] == b[p + 5]);
            assert(b.subrange(p, p + 12)[6] == b[p + 6]);
            assert(b.subrange(p, p + 12)[7] == b[p + 7]);
            assert(b.subrange(p, p + 12)[8] == b[p + 8]);
            assert(b.subrange(p, p + 12)[9] == b[p + 9]);
            assert(b.subrange(p, p + 12)[10] == b[p + 10]);
            assert(b.subrange(p, p + 12)[11] == b[p + 11]);
        }
        (s, ns)
    } else {
        return Err(IoError::InvalidInput);
    };
    if len == 4 {
        proof {
            assert(b.subrange(p, p + 4)[0] == b[p]);
            assert(b.subrange(p, p + 4)[1] == b[p + 1]);
            assert(b.subrange(p, p + 4)[2] == b[p + 2]);
            assert(b.subrange(p, p + 4)[3] == b[p + 3]);
        }
    }
    if in_calendar_range(seconds, nanoseconds) {
        Ok(Timestamp { seconds, nanoseconds })
    } else {
        Err(IoError::InvalidInput)
    }
}

/// Emits the packed payload for a timestamp, choosing the 4-, 8- or 12-byte
/// form; the caller frames it as an ext value with tag -1.
pub fn write_timestamp<W: WriteSlices>(w: &mut W, ts: Timestamp) -> (r: Result<(), IoError>)
    requires
        ts.nanoseconds < 1_000_000_000,
    ensures
        final(w).reliable() == old(w).reliable(),
        r is Ok ==> final(w).sink() == old(w).sink() + ts_payload(ts.seconds, ts.nanoseconds),
        old(w).reliable() ==> r is Ok,
{
    if ts.seconds >= 0 && ts.seconds < 0x4_0000_0000 {
        let v: u64 = ((ts.nanoseconds as u64) << 34) | (ts.seconds as u64);
        if v <= 0xffff_ffff {
            let t = v as u32;
            let hdr: [u8; 4] = [
                (t >> 24) as u8,
                #[verifier::truncate] ((t >> 16) as u8),
                #[verifier::truncate] ((t >> 8) as u8),
                #[verifier::truncate] (t as u8),
            ];
            emit1(w, hdr.as_slice())
        } else {
            let hdr: [u8; 8] = [
                (v >> 56) as u8,
                #[verifier::truncate] ((v >> 48) as u8),
                #[verifier::truncate] ((v >> 40) as u8),
                #[verifier::truncate] ((v >> 32) as u8),
                #[verifier::truncate] ((v >> 24) as u8),
                #[verifier::truncate] ((v >> 16) as u8),
                #[verifier::truncate] ((v >> 8) as u8),
                #[verifier::truncate] (v as u8),
            ];
            emit1(w, hdr.as_slice())
        }
    } else {
        let ns = ts.nanoseconds;
        let s = #[verifier::truncate] (ts.seconds as u64);
        let hdr: [u8; 12] = [
            (ns >> 24) as u8,
            #[verifier::truncate] ((ns >> 16) as u8),
            #[verifier::truncate] ((ns >> 8) as u8),
            #[verifier::truncate] (ns as u8),
            (s >> 56) as u8,
            #[verifier::truncate] ((s >> 48) as u8),
            #[verifier::truncate] ((s >> 40) as u8),
            #[verifier::truncate] ((s >> 32) as u8),
            #[verifier::truncate] ((s >> 24) as u8),
            #[verifier::truncate] ((s >> 16) as u8),
            #[verifier::truncate] ((s >> 8) as u8),
            #[verifier::truncate] (s as u8),
        ];
        let ghost whole = hdr@;
        let r = emit1(w, hdr.as_slice());
        proof {
            assert(whole =~= be4_of(ts.nanoseconds) + be8_of(ts.seconds as u64));
        }
        r
    }
}

/// Emits a complete ext value: the minimal fixed-size marker when the
/// payload length is exactly 1, 2, 4, 8 or 16, else the smallest
/// length-prefixed form that fits; then the signed tag byte and the payload.
/// A payload longer than the 32-bit length space is rejected as invalid
/// input before anything is written.
pub fn write_ext<W: WriteSlices>(writer: &mut W, value: &[u8], tag: i8) -> (r: Result<
    (),
    IoError,
>)
    ensures
        final(writer).reliable() == old(writer).reliable(),
        r is Ok ==> value@.len() <= 0xffff_ffff && final(writer).sink() == old(writer).sink()
            + enc_ext(tag, value@),
        old(writer).reliable() && value@.len() <= 0xffff_ffff ==> r is Ok,
        value@.len() > 0xffff_ffff ==> r == Err::<(), IoError>(IoError::InvalidInput)
            && *final(writer) == *old(writer),
{
    let len = value.len();
    let tb = #[verifier::truncate] (tag as u8);
    if len == 1 {
        let hdr: [u8; 2] = [0xd4, tb];
        emit2(writer, hdr.as_slice(), value)
    } else if len == 2 {
        let hdr: [u8; 2] = [0xd5, tb];
        emit2(writer, hdr.as_slice(), value)
    } else if len == 4 {
        let hdr: [u8; 2] = [0xd6, tb];
        emit2(writer, hdr.as_slice(), value)
    } else if len == 8 {
        let hdr: [u8; 2] = [0xd7, tb];
        emit2(writer, hdr.as_slice(), value)
    } else if len == 16 {
        let hdr: [u8; 2] = [0xd8, tb];
        emit2(writer, hdr.as_slice(), value)
    } else if len < 0x100 {
        let hdr: [u8; 3] = [0xc7, len as u8, tb];
        emit2(writer, hdr.as_slice(), value)
    } else if len < 0x1_0000 {
        let t = len as u16;
        let hdr: [u8; 4] = [0xc8, (t >> 8) as u8, #[verifier::truncate] (t as u8), tb];
        emit2(writer, hdr.as_slice(), value)
    } else if len <= 0xffff_ffff {
        let t = len as u32;
        let hdr: [u8; 6] = [
            0xc9,
            (t >> 24) as u8,
            #[verifier::truncate] ((t >> 16) as u8),
            #[verifier::truncate] ((t >> 8) as u8),
            #[verifier::truncate] (t as u8),
            tb,
        ];
        emit2(writer, hdr.as_slice(), value)
    } else {
        Err(IoError::InvalidInput)
    }
}

/// The (tag, payload) held by a buffer that is exactly one complete ext
/// value; `None` when the buffer is not.
pub open spec fn ext_parse(b: Seq<u8>) -> Option<(i8, Seq<u8>)> {
    if b.len() < 1 {
        None
    } else {
        let (hdr, len): (int, int) = match marker_of(b[0]) {
            Marker::FixExt1 => (1, 1),
            Marker::FixExt2 => (1, 2),
            Marker::FixExt4 => (1, 4),
            Marker::FixExt8 => (1, 8),
            Marker::FixExt16 => (1, 16),
            Marker::Ext8 => (2, if b.len() >= 2 { b[1] as int } else { -1 }),
            Marker::Ext16 => (3, if b.len() >= 3 { be_u16(b, 1) as int } else { -1 }),
            Marker::Ext32 => (5, if b.len() >= 5 { be_u32(b, 1) as int } else { -1 }),
            _ => (0, -1),
        };
        if len < 0 || hdr == 0 || b.len() != hdr + 1 + len {
            None
        } else {
            Some((b[hdr] as i8, b.subrange(hdr + 1, b.len() as int)))
        }
    }
}

/// Reads exactly one complete ext value from a buffer, returning its tag and
/// a span of its payload; fails with invalid input when the buffer is not
/// exactly one ext value.
pub fn read_ext(data: &[u8]) -> (r: Result<(i8, &[u8]), IoError>)
    ensures
        match r {
            Ok((tag, p)) => ext_parse(data@) == Some((tag, p@)),
            Err(_) => ext_parse(data@) is None,
        },
{
    let mut reader = Reader::new(data);
    let m = match reader.read_u8() {
        Ok(v) => Marker::from_u8(v),
        Err(_) => {
            return Err(IoError::InvalidInput);
        },
    };
    let len: u32 = match m {
        Marker::FixExt1 => 1,
        Marker::FixExt2 => 2,
        Marker::FixExt4 => 4,
        Marker::FixExt8 => 8,
        Marker::FixExt16 => 16,
        Marker::Ext8 => {
            match reader.read_u8() {
                Ok(v) => v as u32,
                Err(_) => {
                    return Err(IoError::InvalidInput);
                },
            }
        },
        Marker::Ext16 => {
            match reader.read_u16() {
                Ok(v) => v as u32,
                Err(_) => {
                    return Err(IoError::InvalidInput);
                },
            }
        },
        Marker::Ext32 => {
            match reader.read_u32() {
                Ok(v) => v,
                Err(_) => {
                    return Err(IoError::InvalidInput);
                },
            }
        },
        _ => {
            return Err(IoError::InvalidInput);
        },
    };
    let tag = match reader.read_i8() {
        Ok(v) => v,
        Err(_) => {
            return Err(IoError::InvalidInput);
        },
    };
    let p = match reader.read_slice(len as usize) {
        Ok(v) => v,
        Err(_) => {
            return Err(IoError::InvalidInput);
        },
    };
    if !reader.eof() {
        return Err(IoError::InvalidInput);
    }
    Ok((tag, p))
}

} // verus!
