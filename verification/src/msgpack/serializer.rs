//! Serializer: drives a value-producing capability and emits canonical
//! minimal MessagePack bytes through a vectored sink, enforcing the same
//! recursion ceiling as the validator.
//!
//! The value model is a sealed set of tagged variants, one per MessagePack
//! shape; `enc` is the byte sequence a value denotes.

use vstd::prelude::*;
use vstd::string::StringSliceAdditionalSpecFns;
use vstd::utf8::encode_utf8;
use crate::fragment::Fragment;
use crate::io::{IoError, WriteSlices};
use crate::msgpack::encode::{
    array_header, emit1, enc_bin, enc_bool, enc_ext, enc_f32, enc_f64, enc_int, enc_nil,
    enc_str, enc_uint, map_header, write_array_len, write_bin, write_bool,
    write_f32_bits, write_f64_bits, write_i64, write_map_len, write_nil, write_str, write_u64,
};
use crate::msgpack::ext::write_ext;
use crate::msgpack::RECURSION_LIMIT;

verus! {

/// Why encoding aborted: the sink refused bytes, or the value-producing
/// side supplied a reason of its own (the recursion ceiling among them).
#[derive(Debug)]
pub enum Error {
    /// A producer-supplied message, surfaced intact.
    Custom(String),
    /// The sink refused the bytes.
    Write,
}

/// The message carried by the error that the recursion ceiling raises.
pub open spec fn recursion_msg() -> Seq<char> {
    "recursion limit reached"@
}

/// True of the error raised when the recursion ceiling would be exceeded.
pub open spec fn is_recursion_err(r: Result<(), Error>) -> bool {
    r matches Err(Error::Custom(m)) && m@ == recursion_msg()
}

/// Lifts a sink result into the encode error taxonomy: every refused write
/// surfaces as a write error.
fn lift(r: Result<(), IoError>) -> (out: Result<(), Error>)
    ensures
        out is Ok <==> r is Ok,
        out is Err ==> out matches Err(Error::Write),
{
    match r {
        Ok(()) => Ok(()),
        Err(_) => Err(Error::Write),
    }
}

/// One value of any MessagePack shape: the sealed set of variants a
/// producer can emit. Floats are carried by their bit patterns and written
/// width-faithfully. An ext value's body is always one byte blob, so a
/// composite ext payload cannot even be constructed. A fragment is a
/// pre-validated byte span spliced verbatim.
pub enum Value {
    Nil,
    Bool(bool),
    Signed(i64),
    Unsigned(u64),
    F32Bits(u32),
    F64Bits(u64),
    Str(String),
    Bin(Vec<u8>),
    Array(Vec<Value>),
    Dict(Vec<(Value, Value)>),
    Ext(i8, Vec<u8>),
    Fragment(Fragment),
}

/// The canonical encoding of a value.
pub open spec fn enc(v: Value) -> Seq<u8>
    decreases v, 0int,
{
    match v {
        Value::Nil => enc_nil(),
        Value::Bool(x) => enc_bool(x),
        Value::Signed(x) => enc_int(x),
        Value::Unsigned(x) => enc_uint(x),
        Value::F32Bits(x) => enc_f32(x),
        Value::F64Bits(x) => enc_f64(x),
        Value::Str(s) => enc_str(encode_utf8(s@)),
        Value::Bin(b) => enc_bin(b@),
        Value::Array(vs) => array_header(vs@.len() as int) + enc_list(vs@, vs@.len() as int),
        Value::Dict(ps) => map_header(ps@.len() as int) + enc_pairs(ps@, ps@.len() as int),
        Value::Ext(tag, p) => enc_ext(tag, p@),
        Value::Fragment(f) => f.bytes(),
    }
}

/// The concatenated encodings of the first `n` values of a list, in order.
pub open spec fn enc_list(items: Seq<Value>, n: int) -> Seq<u8>
    decreases items, n,
{
    if n <= 0 || n > items.len() {
        Seq::empty()
    } else {
        enc_list(items, n - 1) + enc(items[n - 1])
    }
}

/// The concatenated encodings of the first `n` key-value pairs of a map,
/// in order, each key before its value.
pub open spec fn enc_pairs(items: Seq<(Value, Value)>, n: int) -> Seq<u8>
    decreases items, n,
{
    if n <= 0 || n > items.len() {
        Seq::empty()
    } else {
        enc_pairs(items, n - 1) + enc(items[n - 1].0) + enc(items[n - 1].1)
    }
}

/// Whether encoding `v` succeeds when begun with the recursion counter at
/// `rec`: every nested container must stay under the ceiling and every
/// payload must fit the 32-bit length space.
pub open spec fn encodable(v: Value, rec: int) -> bool
    decreases v, 0int,
{
    match v {
        Value::Str(s) => encode_utf8(s@).len() <= 0xffff_ffff,
        Value::Bin(b) => b@.len() <= 0xffff_ffff,
        Value::Ext(_, p) => p@.len() <= 0xffff_ffff,
        Value::Array(vs) => rec < 255 && vs@.len() <= 0xffff_ffff && encodable_list(
            vs@,
            vs@.len() as int,
            rec + 1,
        ),
        Value::Dict(ps) => rec < 255 && ps@.len() <= 0xffff_ffff && encodable_pairs(
            ps@,
            ps@.len() as int,
            rec + 1,
        ),
        _ => true,
    }
}

/// Whether the first `n` values of a list are all encodable at `rec`.
pub open spec fn encodable_list(items: Seq<Value>, n: int, rec: int) -> bool
    decreases items, n,
{
    n <= 0 || n > items.len() || (encodable_list(items, n - 1, rec) && encodable(
        items[n - 1],
        rec,
    ))
}

/// Whether the first `n` pairs of a map are all encodable at `rec`.
pub open spec fn encodable_pairs(items: Seq<(Value, Value)>, n: int, rec: int) -> bool
    decreases items, n,
{
    n <= 0 || n > items.len() || (encodable_pairs(items, n - 1, rec) && encodable(
        items[n - 1].0,
        rec,
    ) && encodable(items[n - 1].1, rec))
}

/// Each of the first `n` values of an encodable list is itself encodable.
pub proof fn lemma_encodable_list_index(items: Seq<Value>, n: int, rec: int, i: int)
    requires
        0 <= i < n <= items.len(),
        encodable_list(items, n, rec),
    ensures
        encodable(items[i], rec),
    decreases n,
{
    if i < n - 1 {
        lemma_encodable_list_index(items, n - 1, rec, i);
    }
}

/// Each of the first `n` pairs of an encodable map is itself encodable.
pub proof fn lemma_encodable_pairs_index(items: Seq<(Value, Value)>, n: int, rec: int, i: int)
    requires
        0 <= i < n <= items.len(),
        encodable_pairs(items, n, rec),
    ensures
        encodable(items[i].0, rec),
        encodable(items[i].1, rec),
    decreases n,
{
    if i < n - 1 {
        lemma_encodable_pairs_index(items, n - 1, rec, i);
    }
}

/// Drives a vectored sink, emitting one canonical encoding per emitted
/// value, with a recursion counter shared between nested containers.
pub struct Serializer<W> {
    writer: W,
    recursion: u8,
}

/// A container under construction: evidence that an array or map header was
/// emitted and its recursion level is still open.
pub struct Compound {
    keep: bool,
}

impl<W: WriteSlices> Serializer<W> {
    /// The bytes emitted so far.
    pub closed spec fn out(&self) -> Seq<u8> {
        self.writer.sink()
    }

    /// The recursion counter.
    pub closed spec fn rec(&self) -> int {
        self.recursion as int
    }

    /// Whether the sink accepts every write.
    pub closed spec fn reliable(&self) -> bool {
        self.writer.reliable()
    }

    /// A serializer over `writer` with the recursion counter at zero.
    pub fn new(writer: W) -> (r: Serializer<W>)
        ensures
            r.out() == writer.sink(),
            r.rec() == 0,
            r.reliable() == writer.reliable(),
    {
        Serializer { writer, recursion: 0 }
    }

    /// Hands the sink back once the document is finished.
    pub fn into_inner(self) -> (r: W)
        ensures
            r.sink() == self.out(),
    {
        self.writer
    }

    /// Emits nil.
    pub fn serialize_unit(&mut self) -> (r: Result<(), Error>)
        ensures
            final(self).reliable() == old(self).reliable(),
            final(self).rec() == old(self).rec(),
            r is Ok ==> final(self).out() == old(self).out() + enc_nil(),
            old(self).reliable() ==> r is Ok,
    {
        lift(write_nil(&mut self.writer))
    }

    /// Emits a boolean.
    pub fn serialize_bool(&mut self, v: bool) -> (r: Result<(), Error>)
        ensures
            final(self).reliable() == old(self).reliable(),
            final(self).rec() == old(self).rec(),
            r is Ok ==> final(self).out() == old(self).out() + enc_bool(v),
            old(self).reliable() ==> r is Ok,
    {
        lift(write_bool(&mut self.writer, v))
    }

    /// Emits a signed integer in its minimal-width form.
    pub fn serialize_i64(&mut self, v: i64) -> (r: Result<(), Error>)
        ensures
            final(self).reliable() == old(self).reliable(),
            final(self).rec() == old(self).rec(),
            r is Ok ==> final(self).out() == old(self).out() + enc_int(v),
            old(self).reliable() ==> r is Ok,
    {
        lift(write_i64(&mut self.writer, v))
    }

    /// Emits an unsigned integer in its minimal-width form.
    pub fn serialize_u64(&mut self, v: u64) -> (r: Result<(), Error>)
        ensures
            final(self).reliable() == old(self).reliable(),
            final(self).rec() == old(self).rec(),
            r is Ok ==> final(self).out() == old(self).out() + enc_uint(v),
            old(self).reliable() ==> r is Ok,
    {
        lift(write_u64(&mut self.writer, v))
    }

    /// Emits a 32-bit float from its bit pattern, width-faithfully.
    pub fn serialize_f32_bits(&mut self, bits: u32) -> (r: Result<(), Error>)
        ensures
            final(self).reliable() == old(self).reliable(),
            final(self).rec() == old(self).rec(),
            r is Ok ==> final(self).out() == old(self).out() + enc_f32(bits),
            old(self).reliable() ==> r is Ok,
    {
        lift(write_f32_bits(&mut self.writer, bits))
    }

    /// Emits a 64-bit float from its bit pattern, width-faithfully.
    pub fn serialize_f64_bits(&mut self, bits: u64) -> (r: Result<(), Error>)
        ensures
            final(self).reliable() == old(self).reliable(),
            final(self).rec() == old(self).rec(),
            r is Ok ==> final(self).out() == old(self).out() + enc_f64(bits),
            old(self).reliable() ==> r is Ok,
    {
        lift(write_f64_bits(&mut self.writer, bits))
    }

    /// Emits a UTF-8 string.
    pub fn serialize_str(&mut self, v: &str) -> (r: Result<(), Error>)
        ensures
            final(self).reliable() == old(self).reliable(),
            final(self).rec() == old(self).rec(),
            r is Ok ==> final(self).out() == old(self).out() + enc_str(v.spec_bytes()),
            old(self).reliable() ==> (r is Ok <==> v.spec_bytes().len() <= 0xffff_ffff),
    {
        lift(write_str(&mut self.writer, v))
    }

    /// Emits an opaque byte blob.
    pub fn serialize_bytes(&mut self, v: &[u8]) -> (r: Result<(), Error>)
        ensures
            final(self).reliable() == old(self).reliable(),
            final(self).rec() == old(self).rec(),
            r is Ok ==> final(self).out() == old(self).out() + enc_bin(v@),
            old(self).reliable() ==> (r is Ok <==> v@.len() <= 0xffff_ffff),
    {
        lift(write_bin(&mut self.writer, v))
    }

    /// Emits an ext value: a signed tag and one opaque byte payload.
    pub fn serialize_ext(&mut self, tag: i8, payload: &[u8]) -> (r: Result<(), Error>)
        ensures
            final(self).reliable() == old(self).reliable(),
            final(self).rec() == old(self).rec(),
            r is Ok ==> final(self).out() == old(self).out() + enc_ext(tag, payload@),
            old(self).reliable() ==> (r is Ok <==> payload@.len() <= 0xffff_ffff),
    {
        lift(write_ext(&mut self.writer, payload, tag))
    }

    /// Splices a pre-validated fragment verbatim, bypassing marker selection
    /// and recursion bookkeeping for its contents: it counts as one value at
    /// whatever depth it is embedded.
    pub fn serialize_fragment(&mut self, f: &Fragment) -> (r: Result<(), Error>)
        ensures
            final(self).reliable() == old(self).reliable(),
            final(self).rec() == old(self).rec(),
            r is Ok ==> final(self).out() == old(self).out() + f.bytes(),
            old(self).reliable() ==> r is Ok,
    {
        lift(emit1(&mut self.writer, f.as_slice()))
    }

    /// Begins an array of exactly `len` elements: bumps the recursion
    /// counter — failing once the ceiling would be exceeded — and emits the
    /// header. The caller emits the elements, then closes the compound.
    pub fn serialize_seq(&mut self, len: usize) -> (r: Result<Compound, Error>)
        ensures
            final(self).reliable() == old(self).reliable(),
            r is Ok ==> old(self).rec() < 255 && len <= 0xffff_ffff && final(self).out() == old(
                self,
            ).out() + array_header(len as int) && final(self).rec() == old(self).rec() + 1,
            old(self).reliable() && old(self).rec() < 255 && len <= 0xffff_ffff ==> r is Ok,
            old(self).rec() == 255 ==> (r matches Err(Error::Custom(m)) && m@ == recursion_msg()
                && *final(self) == *old(self)),
    {
        if self.recursion == RECURSION_LIMIT {
            return Err(Error::Custom(recursion_limit_message()));
        }
        self.recursion = self.recursion + 1;
        match write_array_len(&mut self.writer, len) {
            Ok(()) => Ok(Compound { keep: true }),
            Err(_) => Err(Error::Write),
        }
    }

    /// Begins a map of exactly `len` key-value pairs, exactly as an array
    /// of `2 * len` values is begun.
    pub fn serialize_map(&mut self, len: usize) -> (r: Result<Compound, Error>)
        ensures
            final(self).reliable() == old(self).reliable(),
            r is Ok ==> old(self).rec() < 255 && len <= 0xffff_ffff && final(self).out() == old(
                self,
            ).out() + map_header(len as int) && final(self).rec() == old(self).rec() + 1,
            old(self).reliable() && old(self).rec() < 255 && len <= 0xffff_ffff ==> r is Ok,
            old(self).rec() == 255 ==> (r matches Err(Error::Custom(m)) && m@ == recursion_msg()
                && *final(self) == *old(self)),
    {
        if self.recursion == RECURSION_LIMIT {
            return Err(Error::Custom(recursion_limit_message()));
        }
        self.recursion = self.recursion + 1;
        match write_map_len(&mut self.writer, len) {
            Ok(()) => Ok(Compound { keep: true }),
            Err(_) => Err(Error::Write),
        }
    }

    /// Emits one complete value, recursively for composite values: exactly
    /// the canonical encoding `enc(v)` is appended. With a sink that never
    /// refuses a write, encoding succeeds exactly on encodable values.
    pub fn serialize_value(&mut self, v: &Value) -> (r: Result<(), Error>)
        ensures
            final(self).reliable() == old(self).reliable(),
            r is Ok ==> final(self).out() == old(self).out() + enc(*v) && final(self).rec() == old(
                self,
            ).rec(),
            old(self).reliable() ==> (r is Ok <==> encodable(*v, old(self).rec())),
        decreases *v,
    {
        match v {
            Value::Nil => lift(write_nil(&mut self.writer)),
            Value::Bool(x) => lift(write_bool(&mut self.writer, *x)),
            Value::Signed(x) => lift(write_i64(&mut self.writer, *x)),
            Value::Unsigned(x) => lift(write_u64(&mut self.writer, *x)),
            Value::F32Bits(x) => lift(write_f32_bits(&mut self.writer, *x)),
            Value::F64Bits(x) => lift(write_f64_bits(&mut self.writer, *x)),
            Value::Str(s) => lift(write_str(&mut self.writer, s.as_str())),
            Value::Bin(b) => lift(write_bin(&mut self.writer, b.as_slice())),
            Value::Ext(tag, p) => lift(write_ext(&mut self.writer, p.as_slice(), *tag)),
            Value::Fragment(f) => lift(emit1(&mut self.writer, f.as_slice())),
            Value::Array(vs) => self.serialize_array_items(vs),
            Value::Dict(ps) => self.serialize_map_items(ps),
        }
    }

    /// Emits an array header and all its elements.
    #[verifier::loop_isolation(false)]
    fn serialize_array_items(&mut self, vs: &Vec<Value>) -> (r: Result<(), Error>)
        ensures
            final(self).reliable() == old(self).reliable(),
            r is Ok ==> final(self).out() == old(self).out() + array_header(vs@.len() as int)
                + enc_list(vs@, vs@.len() as int) && final(self).rec() == old(self).rec(),
            old(self).reliable() ==> (r is Ok <==> old(self).rec() < 255 && vs@.len()
                <= 0xffff_ffff && encodable_list(vs@, vs@.len() as int, old(self).rec() + 1)),
        decreases vs,
    {
        if self.recursion == RECURSION_LIMIT {
            return Err(Error::Custom(recursion_limit_message()));
        }
        self.recursion = self.recursion + 1;
        match write_array_len(&mut self.writer, vs.len()) {
            Ok(()) => (),
            Err(_) => {
                return Err(Error::Write);
            },
        }
        let ghost rec1 = old(self).rec() + 1;
        let mut i: usize = 0;
        while i < vs.len()
            invariant
                i <= vs@.len(),
                self.rec() == rec1,
                self.reliable() == old(self).reliable(),
                self.out() == old(self).out() + array_header(vs@.len() as int) + enc_list(
                    vs@,
                    i as int,
                ),
                old(self).reliable() ==> encodable_list(vs@, i as int, rec1),
            decreases vs@.len() - i,
        {
            match self.serialize_value(&vs[i]) {
                Ok(()) => (),
                Err(e) => {
                    proof {
                        if old(self).reliable() {
                            if encodable_list(vs@, vs@.len() as int, rec1) {
                                lemma_encodable_list_index(
                                    vs@,
                                    vs@.len() as int,
                                    rec1,
                                    i as int,
                                );
                            }
                        }
                    }
                    return Err(e);
                },
            }
            i = i + 1;
        }
        self.recursion = self.recursion - 1;
        Ok(())
    }

    /// Emits a map header and all its pairs, each key before its value.
    #[verifier::loop_isolation(false)]
    fn serialize_map_items(&mut self, ps: &Vec<(Value, Value)>) -> (r: Result<(), Error>)
        ensures
            final(self).reliable() == old(self).reliable(),
            r is Ok ==> final(self).out() == old(self).out() + map_header(ps@.len() as int)
                + enc_pairs(ps@, ps@.len() as int) && final(self).rec() == old(self).rec(),
            old(self).reliable() ==> (r is Ok <==> old(self).rec() < 255 && ps@.len()
                <= 0xffff_ffff && encodable_pairs(ps@, ps@.len() as int, old(self).rec() + 1)),
        decreases ps,
    {
        if self.recursion == RECURSION_LIMIT {
            return Err(Error::Custom(recursion_limit_message()));
        }
        self.recursion = self.recursion + 1;
        match write_map_len(&mut self.writer, ps.len()) {
            Ok(()) => (),
            Err(_) => {
                return Err(Error::Write);
            },
        }
        let ghost rec1 = old(self).rec() + 1;
        let mut i: usize = 0;
        while i < ps.len()
            invariant
                i <= ps@.len(),
                self.rec() == rec1,
                self.reliable() == old(self).reliable(),
                self.out() == old(self).out() + map_header(ps@.len() as int) + enc_pairs(
                    ps@,
                    i as int,
                ),
                old(self).reliable() ==> encodable_pairs(ps@, i as int, rec1),
            decreases ps@.len() - i,
        {
            match self.serialize_value(&ps[i].0) {
                Ok(()) => (),
                Err(e) => {
                    proof {
                        if old(self).reliable() {
                            if encodable_pairs(ps@, ps@.len() as int, rec1) {
                                lemma_encodable_pairs_index(
                                    ps@,
                                    ps@.len() as int,
                                    rec1,
                                    i as int,
                                );
                            }
                        }
                    }
                    return Err(e);
                },
            }
            match self.serialize_value(&ps[i].1) {
                Ok(()) => (),
                Err(e) => {
                    proof {
                        if old(self).reliable() {
                            if encodable_pairs(ps@, ps@.len() as int, rec1) {
                                lemma_encodable_pairs_index(
                                    ps@,
                                    ps@.len() as int,
                                    rec1,
                                    i as int,
                                );
                            }
                        }
                    }
                    return Err(e);
                },
            }
            i = i + 1;
        }
        self.recursion = self.recursion - 1;
        Ok(())
    }
}

impl Compound {
    /// Closes a compound begun by `serialize_seq` or `serialize_map`,
    /// releasing its recursion level.
    pub fn end<W: WriteSlices>(self, se: &mut Serializer<W>)
        requires
            old(se).rec() >= 1,
        ensures
            final(se).out() == old(se).out(),
            final(se).rec() == old(se).rec() - 1,
            final(se).reliable() == old(se).reliable(),
    {
        let _ = self.keep;
        se.recursion = se.recursion - 1;
    }
}

/// The message of the recursion-ceiling error.
fn recursion_limit_message() -> (r: String)
    ensures
        r@ == recursion_msg(),
{
    String::from_str("recursion limit reached")
}

} // verus!
