//! Structural validator: a recursive-descent check that a byte buffer holds
//! exactly one complete, well-formed MessagePack value, enforcing the
//! recursion ceiling, UTF-8 validity of strings, and full-buffer consumption.
//!
//! The meaning of the check is the `scan_value` / `scan_seq` specification:
//! the offset one value ends at, or the error that stops the scan.

use vstd::prelude::*;
use vstd::utf8::valid_utf8;
use crate::io::{be_u16, be_u32, IoError, Reader};
use crate::msgpack::ext::{read_timestamp, ts_read};
use crate::msgpack::marker::{marker_of, Marker};
use crate::msgpack::RECURSION_LIMIT;

verus! {

/// Why a buffer was rejected.
#[derive(Clone, Copy, Debug, PartialEq, Eq, Structural)]
pub enum Error {
    /// A string value holds malformed UTF-8.
    InvalidStr,
    /// The reserved marker byte was encountered.
    InvalidType(Marker),
    /// A structurally decoded value is out of its legal range, or bytes
    /// remain after the top-level value.
    InvalidValue,
    /// The nesting ceiling was reached.
    RecursionLimitReached,
    /// The buffer was exhausted mid-value.
    UnexpectedEof,
}

/// How a cursor error surfaces from the validator: an out-of-range value is
/// an invalid value, anything else an unexpected end of file.
pub open spec fn err_of_io(e: IoError) -> Error {
    match e {
        IoError::InvalidInput => Error::InvalidValue,
        _ => Error::UnexpectedEof,
    }
}

/// Relies on simdutf8's `basic::from_utf8`: it returns `Ok` exactly on the
/// byte sequences that are valid UTF-8, as `std::str::from_utf8` does.
#[verifier::external_body]
fn utf8_ok(data: &[u8]) -> (r: bool)
    ensures
        r == valid_utf8(data@),
{
    simdutf8::basic::from_utf8(data).is_ok()
}

/// Where a fixed-width payload of `n` bytes at `p` ends.
pub open spec fn scan_fixed(b: Seq<u8>, p: int, n: int) -> Result<int, Error> {
    if 0 <= p && p + n <= b.len() {
        Ok(p + n)
    } else {
        Err(Error::UnexpectedEof)
    }
}

/// Where a string payload of `n` bytes at `p` ends: its bytes must be
/// well-formed UTF-8.
pub open spec fn scan_str(b: Seq<u8>, p: int, n: int) -> Result<int, Error> {
    if 0 <= p && p + n <= b.len() {
        if valid_utf8(b.subrange(p, p + n)) {
            Ok(p + n)
        } else {
            Err(Error::InvalidStr)
        }
    } else {
        Err(Error::UnexpectedEof)
    }
}

/// Where an ext body (signed tag byte, then `n` payload bytes) at `p` ends.
/// Tag -1 is the timestamp extension and its payload is decoded; any other
/// tag's payload is opaque and skipped.
pub open spec fn scan_ext(b: Seq<u8>, p: int, n: int) -> Result<int, Error> {
    if !(0 <= p && p + 1 <= b.len()) {
        Err(Error::UnexpectedEof)
    } else {
        let tag = b[p] as i8;
        if tag == -1 {
            match ts_read(b, p + 1, n) {
                Ok((_, end)) => Ok(end),
                Err(e) => Err(err_of_io(e)),
            }
        } else {
            if p + 1 + n <= b.len() {
                Ok(p + 1 + n)
            } else {
                Err(Error::UnexpectedEof)
            }
        }
    }
}

/// Where the value starting at `pos` ends, scanning with recursion counter
/// `rec`: the counter is incremented on entry and the scan fails once it
/// reaches the ceiling.
pub open spec fn scan_value(b: Seq<u8>, pos: int, rec: int) -> Result<int, Error>
    decreases 255 - rec, 0int,
{
    if rec + 1 >= 255 {
        Err(Error::RecursionLimitReached)
    } else if !(0 <= pos && pos < b.len()) {
        Err(Error::UnexpectedEof)
    } else {
        let rec1 = rec + 1;
        match marker_of(b[pos]) {
            Marker::Nil => Ok(pos + 1),
            Marker::True => Ok(pos + 1),
            Marker::False => Ok(pos + 1),
            Marker::PosFixInt(_) => Ok(pos + 1),
            Marker::NegFixInt(_) => Ok(pos + 1),
            Marker::U8 => scan_fixed(b, pos + 1, 1),
            Marker::U16 => scan_fixed(b, pos + 1, 2),
            Marker::U32 => scan_fixed(b, pos + 1, 4),
            Marker::U64 => scan_fixed(b, pos + 1, 8),
            Marker::I8 => scan_fixed(b, pos + 1, 1),
            Marker::I16 => scan_fixed(b, pos + 1, 2),
            Marker::I32 => scan_fixed(b, pos + 1, 4),
            Marker::I64 => scan_fixed(b, pos + 1, 8),
            Marker::F32 => scan_fixed(b, pos + 1, 4),
            Marker::F64 => scan_fixed(b, pos + 1, 8),
            Marker::FixStr(n) => scan_str(b, pos + 1, n as int),
            Marker::Str8 => if pos + 2 <= b.len() {
                scan_str(b, pos + 2, b[pos + 1] as int)
            } else {
                Err(Error::UnexpectedEof)
            },
            Marker::Str16 => if pos + 3 <= b.len() {
                scan_str(b, pos + 3, be_u16(b, pos + 1) as int)
            } else {
                Err(Error::UnexpectedEof)
            },
            Marker::Str32 => if pos + 5 <= b.len() {
                scan_str(b, pos + 5, be_u32(b, pos + 1) as int)
            } else {
                Err(Error::UnexpectedEof)
            },
            Marker::Bin8 => if pos + 2 <= b.len() {
                scan_fixed(b, pos + 2, b[pos + 1] as int)
            } else {
                Err(Error::UnexpectedEof)
            },
            Marker::Bin16 => if pos + 3 <= b.len() {
                scan_fixed(b, pos + 3, be_u16(b, pos + 1) as int)
            } else {
                Err(Error::UnexpectedEof)
            },
            Marker::Bin32 => if pos + 5 <= b.len() {
                scan_fixed(b, pos + 5, be_u32(b, pos + 1) as int)
            } else {
                Err(Error::UnexpectedEof)
            },
            Marker::FixArray(n) => scan_seq(b, pos + 1, n as int, rec1),
            Marker::Array16 => if pos + 3 <= b.len() {
                scan_seq(b, pos + 3, be_u16(b, pos + 1) as int, rec1)
            } else {
                Err(Error::UnexpectedEof)
            },
            Marker::Array32 => if pos + 5 <= b.len() {
                scan_seq(b, pos + 5, be_u32(b, pos + 1) as int, rec1)
            } else {
                Err(Error::UnexpectedEof)
            },
            Marker::FixMap(n) => scan_seq(b, pos + 1, 2 * (n as int), rec1),
            Marker::Map16 => if pos + 3 <= b.len() {
                scan_seq(b, pos + 3, 2 * (be_u16(b, pos + 1) as int), rec1)
            } else {
                Err(Error::UnexpectedEof)
            },
            Marker::Map32 => if pos + 5 <= b.len() {
                scan_seq(b, pos + 5, 2 * (be_u32(b, pos + 1) as int), rec1)
            } else {
                Err(Error::UnexpectedEof)
            },
            Marker::FixExt1 => scan_ext(b, pos + 1, 1),
            Marker::FixExt2 => scan_ext(b, pos + 1, 2),
            Marker::FixExt4 => scan_ext(b, pos + 1, 4),
            Marker::FixExt8 => scan_ext(b, pos + 1, 8),
            Marker::FixExt16 => scan_ext(b, pos + 1, 16),
            Marker::Ext8 => if pos + 2 <= b.len() {
                scan_ext(b, pos + 2, b[pos + 1] as int)
            } else {
                Err(Error::UnexpectedEof)
            },
            Marker::Ext16 => if pos + 3 <= b.len() {
                scan_ext(b, pos + 3, be_u16(b, pos + 1) as int)
            } else {
                Err(Error::UnexpectedEof)
            },
            Marker::Ext32 => if pos + 5 <= b.len() {
                scan_ext(b, pos + 5, be_u32(b, pos + 1) as int)
            } else {
                Err(Error::UnexpectedEof)
            },
            Marker::Reserved => Err(Error::InvalidType(Marker::Reserved)),
        }
    }
}

/// Where a run of `count` consecutive values starting at `pos` ends.
pub open spec fn scan_seq(b: Seq<u8>, pos: int, count: int, rec: int) -> Result<int, Error>
    decreases 255 - rec, count,
{
    if count <= 0 {
        Ok(pos)
    } else if rec + 1 >= 255 {
        Err(Error::RecursionLimitReached)
    } else {
        match scan_value(b, pos, rec) {
            Ok(end) => scan_seq(b, end, count - 1, rec),
            Err(e) => Err(e),
        }
    }
}

/// The full result of one `validate` call entered with counter `rec`: the
/// scan of one value, plus — only when unwinding back to counter zero — the
/// requirement that the cursor be exactly at the end of the buffer.
pub open spec fn scan_full(b: Seq<u8>, pos: int, rec: int) -> Result<int, Error> {
    match scan_value(b, pos, rec) {
        Ok(end) => if rec == 0 && end < b.len() {
            Err(Error::InvalidValue)
        } else {
            Ok(end)
        },
        Err(e) => Err(e),
    }
}

/// A buffer that is exactly one complete, well-formed MessagePack value
/// with no trailing bytes, within the recursion ceiling.
pub open spec fn valid_doc(b: Seq<u8>) -> bool {
    scan_value(b, 0, 0) == Ok::<int, Error>(b.len() as int)
}

/// A successful scan ends past where it started and within the buffer.
#[verifier::rlimit(100)]
pub proof fn lemma_scan_bounds(b: Seq<u8>, pos: int, rec: int)
    ensures
        scan_value(b, pos, rec) matches Ok(end) ==> pos < end <= b.len(),
    decreases 255 - rec, 0int,
{
    if rec + 1 < 255 && 0 <= pos && pos < b.len() {
        let rec1 = rec + 1;
        match marker_of(b[pos]) {
            Marker::FixArray(n) => {
                lemma_scan_seq_bounds(b, pos + 1, n as int, rec1);
            },
            Marker::Array16 => {
                if pos + 3 <= b.len() {
                    lemma_scan_seq_bounds(b, pos + 3, be_u16(b, pos + 1) as int, rec1);
                }
            },
            Marker::Array32 => {
                if pos + 5 <= b.len() {
                    lemma_scan_seq_bounds(b, pos + 5, be_u32(b, pos + 1) as int, rec1);
                }
            },
            Marker::FixMap(n) => {
                lemma_scan_seq_bounds(b, pos + 1, 2 * (n as int), rec1);
            },
            Marker::Map16 => {
                if pos + 3 <= b.len() {
                    lemma_scan_seq_bounds(b, pos + 3, 2 * (be_u16(b, pos + 1) as int), rec1);
                }
            },
            Marker::Map32 => {
                if pos + 5 <= b.len() {
                    lemma_scan_seq_bounds(b, pos + 5, 2 * (be_u32(b, pos + 1) as int), rec1);
                }
            },
            _ => {},
        }
    }
}

/// A successful scan of a run of values ends no earlier than it started and
/// within the buffer; an empty run ends where it started.
pub proof fn lemma_scan_seq_bounds(b: Seq<u8>, pos: int, count: int, rec: int)
    ensures
        scan_seq(b, pos, count, rec) matches Ok(end) ==> pos <= end <= b.len() || count <= 0,
        count > 0 ==> (scan_seq(b, pos, count, rec) matches Ok(end) ==> pos < end <= b.len()),
    decreases 255 - rec, count,
{
    if count > 0 && rec + 1 < 255 {
        if let Ok(end) = scan_value(b, pos, rec) {
            lemma_scan_bounds(b, pos, rec);
            lemma_scan_seq_bounds(b, end, count - 1, rec);
        }
    }
}

/// Structural validator over a borrowed buffer: one `validate` call consumes
/// exactly one top-level value and requires the buffer to end with it.
pub struct Validator<'a> {
    data: Reader<'a>,
    recursion: u8,
}

impl<'a> Validator<'a> {
    /// The buffer under validation.
    pub closed spec fn buf(&self) -> Seq<u8> {
        self.data.buf()
    }

    /// The current read offset.
    pub closed spec fn pos(&self) -> int {
        self.data.at()
    }

    /// The current recursion counter.
    pub closed spec fn rec(&self) -> int {
        self.recursion as int
    }

    /// The offset stays inside the buffer and the counter inside its byte.
    pub open spec fn wf(&self) -> bool {
        0 <= self.pos() <= self.buf().len() && 0 <= self.rec() < 256
    }

    /// A validator at the start of `data` with the recursion counter at
    /// zero.
    pub fn new(data: &'a [u8]) -> (r: Validator<'a>)
        ensures
            r.buf() == data@,
            r.pos() == 0,
            r.rec() == 0,
            r.wf(),
    {
        Validator { data: Reader::new(data), recursion: 0 }
    }

    /// Skips a fixed-width payload of `n` bytes.
    fn skip(&mut self, n: u32) -> (r: Result<(), Error>)
        requires
            old(self).wf(),
        ensures
            final(self).buf() == old(self).buf(),
            final(self).rec() == old(self).rec(),
            final(self).wf(),
            match r {
                Ok(()) => scan_fixed(old(self).buf(), old(self).pos(), n as int) == Ok::<
                    int,
                    Error,
                >(final(self).pos()),
                Err(e) => scan_fixed(old(self).buf(), old(self).pos(), n as int) == Err::<
                    int,
                    Error,
                >(e) && final(self).pos() == old(self).pos(),
            },
    {
        match self.data.read_slice(n as usize) {
            Ok(_) => Ok(()),
            Err(_) => Err(Error::UnexpectedEof),
        }
    }

    /// Validates a string payload of `len` bytes as well-formed UTF-8.
    fn validate_str(&mut self, len: u32) -> (r: Result<(), Error>)
        requires
            old(self).wf(),
        ensures
            final(self).buf() == old(self).buf(),
            final(self).rec() == old(self).rec(),
            final(self).wf(),
            match r {
                Ok(()) => scan_str(old(self).buf(), old(self).pos(), len as int) == Ok::<
                    int,
                    Error,
                >(final(self).pos()),
                Err(e) => scan_str(old(self).buf(), old(self).pos(), len as int) == Err::<
                    int,
                    Error,
                >(e),
            },
    {
        let data = match self.data.read_slice(len as usize) {
            Ok(d) => d,
            Err(_) => {
                return Err(Error::UnexpectedEof);
            },
        };
        if utf8_ok(data) {
            Ok(())
        } else {
            Err(Error::InvalidStr)
        }
    }

    /// Skips a binary payload of `len` bytes; its content is opaque.
    fn validate_bin(&mut self, len: u32) -> (r: Result<(), Error>)
        requires
            old(self).wf(),
        ensures
            final(self).buf() == old(self).buf(),
            final(self).rec() == old(self).rec(),
            final(self).wf(),
            match r {
                Ok(()) => scan_fixed(old(self).buf(), old(self).pos(), len as int) == Ok::<
                    int,
                    Error,
                >(final(self).pos()),
                Err(e) => scan_fixed(old(self).buf(), old(self).pos(), len as int) == Err::<
                    int,
                    Error,
                >(e),
            },
    {
        match self.data.read_slice(len as usize) {
            Ok(_) => Ok(()),
            Err(_) => Err(Error::UnexpectedEof),
        }
    }

    /// Validates an ext body: the signed tag byte, then a timestamp payload
    /// when the tag is -1, else `len` opaque bytes.
    fn validate_ext(&mut self, len: u32) -> (r: Result<(), Error>)
        requires
            old(self).wf(),
        ensures
            final(self).buf() == old(self).buf(),
            final(self).rec() == old(self).rec(),
            final(self).wf(),
            match r {
                Ok(()) => scan_ext(old(self).buf(), old(self).pos(), len as int) == Ok::<
                    int,
                    Error,
                >(final(self).pos()),
                Err(e) => scan_ext(old(self).buf(), old(self).pos(), len as int) == Err::<
                    int,
                    Error,
                >(e),
            },
    {
        let tag = match self.data.read_i8() {
            Ok(t) => t,
            Err(_) => {
                return Err(Error::UnexpectedEof);
            },
        };
        if tag == -1 {
            match read_timestamp(&mut self.data, len) {
                Ok(_) => Ok(()),
                Err(IoError::InvalidInput) => Err(Error::InvalidValue),
                Err(_) => Err(Error::UnexpectedEof),
            }
        } else {
            match self.data.read_slice(len as usize) {
                Ok(_) => Ok(()),
                Err(_) => Err(Error::UnexpectedEof),
            }
        }
    }

    /// Validates `len` consecutive child values.
    #[verifier::loop_isolation(false)]
    fn validate_array(&mut self, len: u32) -> (r: Result<(), Error>)
        requires
            old(self).wf(),
            1 <= old(self).rec() < 255,
        ensures
            final(self).buf() == old(self).buf(),
            final(self).wf(),
            match r {
                Ok(()) => scan_seq(old(self).buf(), old(self).pos(), len as int, old(self).rec())
                    == Ok::<int, Error>(final(self).pos()) && final(self).rec() == old(
                    self,
                ).rec(),
                Err(e) => scan_seq(old(self).buf(), old(self).pos(), len as int, old(self).rec())
                    == Err::<int, Error>(e),
            },
        decreases self.buf().len() - self.pos(), 1int,
    {
        let ghost b = old(self).buf();
        let ghost rec = old(self).rec();
        let mut i: u32 = 0;
        while i < len
            invariant
                self.wf(),
                self.buf() == b,
                self.rec() == rec,
                1 <= rec < 255,
                i <= len,
                self.pos() >= old(self).pos(),
                scan_seq(b, old(self).pos(), len as int, rec) == scan_seq(
                    b,
                    self.pos(),
                    len - i,
                    rec,
                ),
            decreases len - i,
        {
            let ghost p1 = self.pos();
            match self.validate() {
                Ok(()) => (),
                Err(e) => {
                    return Err(e);
                },
            }
            proof {
                lemma_scan_bounds(b, p1, rec);
                assert(scan_seq(b, p1, len - i, rec) == scan_seq(b, self.pos(), len - i - 1, rec));
            }
            i = i + 1;
        }
        Ok(())
    }

    /// Validates `2 * len` consecutive child values, alternating key and
    /// value.
    #[verifier::loop_isolation(false)]
    fn validate_map(&mut self, len: u32) -> (r: Result<(), Error>)
        requires
            old(self).wf(),
            1 <= old(self).rec() < 255,
        ensures
            final(self).buf() == old(self).buf(),
            final(self).wf(),
            match r {
                Ok(()) => scan_seq(
                    old(self).buf(),
                    old(self).pos(),
                    2 * (len as int),
                    old(self).rec(),
                ) == Ok::<int, Error>(final(self).pos()) && final(self).rec() == old(self).rec(),
                Err(e) => scan_seq(
                    old(self).buf(),
                    old(self).pos(),
                    2 * (len as int),
                    old(self).rec(),
                ) == Err::<int, Error>(e),
            },
        decreases self.buf().len() - self.pos(), 1int,
    {
        let ghost b = old(self).buf();
        let ghost rec = old(self).rec();
        let mut i: u32 = 0;
        while i < len
            invariant
                self.wf(),
                self.buf() == b,
                self.rec() == rec,
                1 <= rec < 255,
                i <= len,
                self.pos() >= old(self).pos(),
                scan_seq(b, old(self).pos(), 2 * (len as int), rec) == scan_seq(
                    b,
                    self.pos(),
                    2 * ((len - i) as int),
                    rec,
                ),
            decreases len - i,
        {
            let ghost c = 2 * ((len - i) as int);
            let ghost p1 = self.pos();
            match self.validate() {
                Ok(()) => (),
                Err(e) => {
                    return Err(e);
                },
            }
            proof {
                lemma_scan_bounds(b, p1, rec);
                assert(scan_seq(b, p1, c, rec) == scan_seq(b, self.pos(), c - 1, rec));
            }
            let ghost p2 = self.pos();
            match self.validate() {
                Ok(()) => (),
                Err(e) => {
                    return Err(e);
                },
            }
            proof {
                lemma_scan_bounds(b, p2, rec);
                assert(scan_seq(b, p2, c - 1, rec) == scan_seq(b, self.pos(), c - 2, rec));
                assert(c - 2 == 2 * ((len - (i + 1)) as int));
            }
            i = i + 1;
        }
        Ok(())
    }

    /// Consumes exactly one value. Entered with the counter at zero — as a
    /// fresh validator is — it additionally requires the buffer to end
    /// exactly where the value does, and rejects trailing bytes as an
    /// invalid value.
    pub fn validate(&mut self) -> (r: Result<(), Error>)
        requires
            old(self).wf(),
            old(self).rec() < 255,
        ensures
            final(self).buf() == old(self).buf(),
            final(self).wf(),
            match r {
                Ok(()) => scan_full(old(self).buf(), old(self).pos(), old(self).rec()) == Ok::<
                    int,
                    Error,
                >(final(self).pos()) && final(self).rec() == old(self).rec(),
                Err(e) => scan_full(old(self).buf(), old(self).pos(), old(self).rec()) == Err::<
                    int,
                    Error,
                >(e),
            },
        decreases self.buf().len() - self.pos(), 0int,
    {
        let ghost b = old(self).buf();
        let ghost pos0 = old(self).pos();
        let ghost rec0 = old(self).rec();
        self.recursion = self.recursion + 1;
        if self.recursion == RECURSION_LIMIT {
            return Err(Error::RecursionLimitReached);
        }
        let mb = match self.data.read_u8() {
            Ok(v) => v,
            Err(_) => {
                return Err(Error::UnexpectedEof);
            },
        };
        let marker = Marker::from_u8(mb);
        let res: Result<(), Error> = match marker {
            Marker::Nil => Ok(()),
            Marker::True => Ok(()),
            Marker::False => Ok(()),
            Marker::PosFixInt(_) => Ok(()),
            Marker::NegFixInt(_) => Ok(()),
            Marker::U8 => self.skip(1),
            Marker::U16 => self.skip(2),
            Marker::U32 => self.skip(4),
            Marker::U64 => self.skip(8),
            Marker::I8 => self.skip(1),
            Marker::I16 => self.skip(2),
            Marker::I32 => self.skip(4),
            Marker::I64 => self.skip(8),
            Marker::F32 => self.skip(4),
            Marker::F64 => self.skip(8),
            Marker::FixStr(n) => self.validate_str(n as u32),
            Marker::Str8 => match self.data.read_u8() {
                Ok(l) => self.validate_str(l as u32),
                Err(_) => Err(Error::UnexpectedEof),
            },
            Marker::Str16 => match self.data.read_u16() {
                Ok(l) => self.validate_str(l as u32),
                Err(_) => Err(Error::UnexpectedEof),
            },
            Marker::Str32 => match self.data.read_u32() {
                Ok(l) => self.validate_str(l),
                Err(_) => Err(Error::UnexpectedEof),
            },
            Marker::Bin8 => match self.data.read_u8() {
                Ok(l) => self.validate_bin(l as u32),
                Err(_) => Err(Error::UnexpectedEof),
            },
            Marker::Bin16 => match self.data.read_u16() {
                Ok(l) => self.validate_bin(l as u32),
                Err(_) => Err(Error::UnexpectedEof),
            },
            Marker::Bin32 => match self.data.read_u32() {
                Ok(l) => self.validate_bin(l),
                Err(_) => Err(Error::UnexpectedEof),
            },
            Marker::FixArray(n) => self.validate_array(n as u32),
            Marker::Array16 => match self.data.read_u16() {
                Ok(l) => self.validate_array(l as u32),
                Err(_) => Err(Error::UnexpectedEof),
            },
            Marker::Array32 => match self.data.read_u32() {
                Ok(l) => self.validate_array(l),
                Err(_) => Err(Error::UnexpectedEof),
            },
            Marker::FixMap(n) => self.validate_map(n as u32),
            Marker::Map16 => match self.data.read_u16() {
                Ok(l) => self.validate_map(l as u32),
                Err(_) => Err(Error::UnexpectedEof),
            },
            Marker::Map32 => match self.data.read_u32() {
                Ok(l) => self.validate_map(l),
                Err(_) => Err(Error::UnexpectedEof),
            },
            Marker::FixExt1 => self.validate_ext(1),
            Marker::FixExt2 => self.validate_ext(2),
            Marker::FixExt4 => self.validate_ext(4),
            Marker::FixExt8 => self.validate_ext(8),
            Marker::FixExt16 => self.validate_ext(16),
            Marker::Ext8 => match self.data.read_u8() {
                Ok(l) => self.validate_ext(l as u32),
                Err(_) => Err(Error::UnexpectedEof),
            },
            Marker::Ext16 => match self.data.read_u16() {
                Ok(l) => self.validate_ext(l as u32),
                Err(_) => Err(Error::UnexpectedEof),
            },
            Marker::Ext32 => match self.data.read_u32() {
                Ok(l) => self.validate_ext(l),
                Err(_) => Err(Error::UnexpectedEof),
            },
            Marker::Reserved => Err(Error::InvalidType(Marker::Reserved)),
        };
        match res {
            Ok(()) => (),
            Err(e) => {
                return Err(e);
            },
        }
        self.recursion = self.recursion - 1;
        if self.recursion == 0 && !self.data.eof() {
            Err(Error::InvalidValue)
        } else {
            Ok(())
        }
    }
}

} // verus!
