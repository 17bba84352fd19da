//! Byte-level primitives: a bounds-checked forward-only read cursor over a
//! borrowed buffer, and a vectored output sink that takes an ordered tuple of
//! byte slices as one logical unit.

use vstd::prelude::*;

verus! {

/// Error raised by cursor reads and sink writes.
#[derive(Clone, Copy, Debug, PartialEq, Eq, Structural)]
pub enum IoError {
    /// A structurally decoded value is outside its legal range.
    InvalidInput,
    /// The buffer was exhausted mid-value.
    UnexpectedEof,
    /// The sink refused the bytes.
    WriteFailed,
}

/// The first `n` slices of an ordered list, flattened into one byte sequence.
pub open spec fn flat_prefix(bufs: Seq<Seq<u8>>, n: int) -> Seq<u8>
    decreases n,
{
    if n <= 0 {
        Seq::empty()
    } else {
        flat_prefix(bufs, n - 1) + bufs[n - 1]
    }
}

/// An ordered list of byte slices, flattened into one byte sequence.
pub open spec fn flat(bufs: Seq<Seq<u8>>) -> Seq<u8> {
    flat_prefix(bufs, bufs.len() as int)
}

/// The views of a list of byte slices.
pub open spec fn views(bufs: Seq<&[u8]>) -> Seq<Seq<u8>> {
    bufs.map_values(|b: &[u8]| b@)
}

/// An output sink accepting an ordered tuple of byte slices to be written as
/// one logical, non-interleaved unit. `sink` is the byte sequence written so
/// far; a reliable sink never refuses a write.
pub trait WriteSlices: Sized {
    /// The bytes written to the sink so far.
    spec fn sink(&self) -> Seq<u8>;

    /// True of a sink that accepts every write.
    spec fn reliable(&self) -> bool;

    /// Writes all slices, in order, as a single logical unit. On failure the
    /// partially written state is unspecified beyond the sink itself
    /// reporting the error; callers abort rather than retry.
    fn write_slices(&mut self, bufs: &[&[u8]]) -> (r: Result<(), IoError>)
        ensures
            r is Ok ==> final(self).sink() == old(self).sink() + flat(views(bufs@)),
            final(self).reliable() == old(self).reliable(),
            old(self).reliable() ==> r is Ok,
    ;
}

/// An in-memory sink: a growable byte buffer that never refuses a write.
pub struct ByteWriter {
    buf: Vec<u8>,
}

impl ByteWriter {
    /// An empty sink.
    pub fn new() -> (r: ByteWriter)
        ensures
            r.sink() == Seq::<u8>::empty(),
    {
        ByteWriter { buf: Vec::new() }
    }

    /// Returns the finished byte sequence.
    pub fn into_vec(self) -> (r: Vec<u8>)
        ensures
            r@ == self.sink(),
    {
        self.buf
    }

    /// Borrows the bytes written so far.
    pub fn as_slice(&self) -> (r: &[u8])
        ensures
            r@ == self.sink(),
    {
        self.buf.as_slice()
    }
}

impl WriteSlices for ByteWriter {
    closed spec fn sink(&self) -> Seq<u8> {
        self.buf@
    }

    open spec fn reliable(&self) -> bool {
        true
    }

    fn write_slices(&mut self, bufs: &[&[u8]]) -> (r: Result<(), IoError>) {
        let mut i: usize = 0;
        while i < bufs.len()
            invariant
                i <= bufs@.len(),
                self.buf@ == old(self).buf@ + flat_prefix(views(bufs@), i as int),
            decreases bufs@.len() - i,
        {
            let b: &[u8] = bufs[i];
            let mut j: usize = 0;
            while j < b.len()
                invariant
                    i < bufs@.len(),
                    j <= b@.len(),
                    b@ == views(bufs@)[i as int],
                    self.buf@ == old(self).buf@ + flat_prefix(views(bufs@), i as int)
                        + b@.subrange(0, j as int),
                decreases b@.len() - j,
            {
                self.buf.push(b[j]);
                j += 1;
                proof {
                    assert(b@.subrange(0, j as int)
                        == b@.subrange(0, j - 1) + seq![b@[j - 1]]);
                }
            }
            i += 1;
            proof {
                assert(b@.subrange(0, b@.len() as int) == b@);
            }
        }
        proof {
            assert(flat_prefix(views(bufs@), bufs@.len() as int) == flat(views(bufs@)));
        }
        Ok(())
    }
}

/// A bounds-checked, forward-only read cursor over a borrowed immutable
/// buffer. Reads advance an internal offset and fail with `UnexpectedEof`
/// when fewer bytes remain than asked for; no byte is copied.
pub struct Reader<'a> {
    data: &'a [u8],
    pos: usize,
}

impl<'a> Reader<'a> {
    /// The underlying buffer.
    pub closed spec fn buf(&self) -> Seq<u8> {
        self.data@
    }

    /// The current read offset.
    pub closed spec fn at(&self) -> int {
        self.pos as int
    }

    /// The offset never passes the end of the buffer.
    pub open spec fn wf(&self) -> bool {
        0 <= self.at() <= self.buf().len()
    }

    /// A cursor at the start of `data`.
    pub fn new(data: &'a [u8]) -> (r: Reader<'a>)
        ensures
            r.buf() == data@,
            r.at() == 0,
            r.wf(),
    {
        Reader { data, pos: 0 }
    }

    /// True iff the offset is exactly at the end of the buffer.
    pub fn eof(&self) -> (r: bool)
        requires
            self.wf(),
        ensures
            r == (self.at() == self.buf().len()),
    {
        self.pos == self.data.len()
    }

    /// Returns the next `len` bytes as a span borrowing the original buffer
    /// and advances the offset by `len`.
    pub fn read_slice(&mut self, len: usize) -> (r: Result<&'a [u8], IoError>)
        requires
            old(self).wf(),
        ensures
            final(self).buf() == old(self).buf(),
            final(self).wf(),
            match r {
                Ok(b) => old(self).at() + len <= old(self).buf().len()
                    && b@ == old(self).buf().subrange(old(self).at(), old(self).at() + len)
                    && final(self).at() == old(self).at() + len,
                Err(e) => e == IoError::UnexpectedEof
                    && old(self).at() + len > old(self).buf().len()
                    && final(self).at() == old(self).at(),
            },
    {
        if len > self.data.len() - self.pos {
            Err(IoError::UnexpectedEof)
        } else {
            let d: &'a [u8] = self.data;
            let r = &d[self.pos..self.pos + len];
            self.pos = self.pos + len;
            Ok(r)
        }
    }

    /// Reads one byte.
    pub fn read_u8(&mut self) -> (r: Result<u8, IoError>)
        requires
            old(self).wf(),
        ensures
            final(self).buf() == old(self).buf(),
            final(self).wf(),
            match r {
                Ok(v) => old(self).at() + 1 <= old(self).buf().len()
                    && v == old(self).buf()[old(self).at()]
                    && final(self).at() == old(self).at() + 1,
                Err(e) => e == IoError::UnexpectedEof
                    && old(self).at() + 1 > old(self).buf().len()
                    && final(self).at() == old(self).at(),
            },
    {
        if self.pos < self.data.len() {
            let v = self.data[self.pos];
            self.pos = self.pos + 1;
            Ok(v)
        } else {
            Err(IoError::UnexpectedEof)
        }
    }

    /// Reads one byte as a signed integer.
    pub fn read_i8(&mut self) -> (r: Result<i8, IoError>)
        requires
            old(self).wf(),
        ensures
            final(self).buf() == old(self).buf(),
            final(self).wf(),
            match r {
                Ok(v) => old(self).at() + 1 <= old(self).buf().len()
                    && v == old(self).buf()[old(self).at()] as i8
                    && final(self).at() == old(self).at() + 1,
                Err(e) => e == IoError::UnexpectedEof
                    && old(self).at() + 1 > old(self).buf().len()
                    && final(self).at() == old(self).at(),
            },
    {
        match self.read_u8() {
            Ok(v) => Ok(#[verifier::truncate] (v as i8)),
            Err(e) => Err(e),
        }
    }

    /// Reads two bytes as a big-endian unsigned integer.
    pub fn read_u16(&mut self) -> (r: Result<u16, IoError>)
        requires
            old(self).wf(),
        ensures
            final(self).buf() == old(self).buf(),
            final(self).wf(),
            match r {
                Ok(v) => old(self).at() + 2 <= old(self).buf().len()
                    && v == be_u16(old(self).buf(), old(self).at())
                    && final(self).at() == old(self).at() + 2,
                Err(e) => e == IoError::UnexpectedEof
                    && old(self).at() + 2 > old(self).buf().len()
                    && final(self).at() == old(self).at(),
            },
    {
        if self.data.len() - self.pos < 2 {
            return Err(IoError::UnexpectedEof);
        }
        let b0 = self.data[self.pos];
        let b1 = self.data[self.pos + 1];
        self.pos = self.pos + 2;
        Ok((b0 as u16) << 8 | (b1 as u16))
    }

    /// Reads four bytes as a big-endian unsigned integer.
    pub fn read_u32(&mut self) -> (r: Result<u32, IoError>)
        requires
            old(self).wf(),
        ensures
            final(self).buf() == old(self).buf(),
            final(self).wf(),
            match r {
                Ok(v) => old(self).at() + 4 <= old(self).buf().len()
                    && v == be_u32(old(self).buf(), old(self).at())
                    && final(self).at() == old(self).at() + 4,
                Err(e) => e == IoError::UnexpectedEof
                    && old(self).at() + 4 > old(self).buf().len()
                    && final(self).at() == old(self).at(),
            },
    {
        if self.data.len() - self.pos < 4 {
            return Err(IoError::UnexpectedEof);
        }
        let b0 = self.data[self.pos];
        let b1 = self.data[self.pos + 1];
        let b2 = self.data[self.pos + 2];
        let b3 = self.data[self.pos + 3];
        self.pos = self.pos + 4;
        Ok((b0 as u32) << 24 | (b1 as u32) << 16 | (b2 as u32) << 8 | (b3 as u32))
    }

    /// Reads eight bytes as a big-endian unsigned integer.
    pub fn read_u64(&mut self) -> (r: Result<u64, IoError>)
        requires
            old(self).wf(),
        ensures
            final(self).buf() == old(self).buf(),
            final(self).wf(),
            match r {
                Ok(v) => old(self).at() + 8 <= old(self).buf().len()
                    && v == be_u64(old(self).buf(), old(self).at())
                    && final(self).at() == old(self).at() + 8,
                Err(e) => e == IoError::UnexpectedEof
                    && old(self).at() + 8 > old(self).buf().len()
                    && final(self).at() == old(self).at(),
            },
    {
        if self.data.len() - self.pos < 8 {
            return Err(IoError::UnexpectedEof);
        }
        let b0 = self.data[self.pos];
        let b1 = self.data[self.pos + 1];
        let b2 = self.data[self.pos + 2];
        let b3 = self.data[self.pos + 3];
        let b4 = self.data[self.pos + 4];
        let b5 = self.data[self.pos + 5];
        let b6 = self.data[self.pos + 6];
        let b7 = self.data[self.pos + 7];
        self.pos = self.pos + 8;
        Ok((b0 as u64) << 56 | (b1 as u64) << 48 | (b2 as u64) << 40 | (b3 as u64) << 32
            | (b4 as u64) << 24 | (b5 as u64) << 16 | (b6 as u64) << 8 | (b7 as u64))
    }

    /// Reads eight bytes as a big-endian signed integer.
    pub fn read_i64(&mut self) -> (r: Result<i64, IoError>)
        requires
            old(self).wf(),
        ensures
            final(self).buf() == old(self).buf(),
            final(self).wf(),
            match r {
                Ok(v) => old(self).at() + 8 <= old(self).buf().len()
                    && v == be_u64(old(self).buf(), old(self).at()) as i64
                    && final(self).at() == old(self).at() + 8,
                Err(e) => e == IoError::UnexpectedEof
                    && old(self).at() + 8 > old(self).buf().len()
                    && final(self).at() == old(self).at(),
            },
    {
        match self.read_u64() {
            Ok(v) => Ok(#[verifier::truncate] (v as i64)),
            Err(e) => Err(e),
        }
    }
}

/// The big-endian 16-bit value held at `pos`.
pub open spec fn be_u16(b: Seq<u8>, pos: int) -> u16 {
    ((b[pos] as u16) << 8 | (b[pos + 1] as u16)) as u16
}

/// The big-endian 32-bit value held at `pos`.
pub open spec fn be_u32(b: Seq<u8>, pos: int) -> u32 {
    ((b[pos] as u32) << 24 | (b[pos + 1] as u32) << 16 | (b[pos + 2] as u32) << 8
        | (b[pos + 3] as u32)) as u32
}

/// The big-endian 64-bit value held at `pos`.
pub open spec fn be_u64(b: Seq<u8>, pos: int) -> u64 {
    ((b[pos] as u64) << 56 | (b[pos + 1] as u64) << 48 | (b[pos + 2] as u64) << 40
        | (b[pos + 3] as u64) << 32 | (b[pos + 4] as u64) << 24 | (b[pos + 5] as u64) << 16
        | (b[pos + 6] as u64) << 8 | (b[pos + 7] as u64)) as u64
}

} // verus!
