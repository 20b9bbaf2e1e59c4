//! A cursor over a byte slice that reads the big-endian primitives of the format.
use vstd::prelude::*;
use vstd::string::StringExecFns;
use vstd::utf8::*;

use crate::codec::cesu8::{cesu8_decode, decode_cesu8_string, lemma_utf8_is_cesu8};
use crate::error::{is_read_error, DecodeError, DecodeErrorView};

verus! {

/// Outcome of reading a value from a byte sequence at a position: the value and the
/// position after it, or the error the reader reports and the position it is left at.
pub type SpecRead<T> = Result<(T, int), (DecodeErrorView, int)>;

pub open spec fn eof_error(context: Seq<char>) -> DecodeErrorView {
    DecodeErrorView::UnexpectedEof { context }
}

pub open spec fn trailing_error(context: Seq<char>, remaining: int) -> DecodeErrorView {
    DecodeErrorView::TrailingBytes { context, remaining: remaining as usize }
}

/// The big-endian value of the two bytes of `b` at `p`.
pub open spec fn be16(b: Seq<u8>, p: int) -> nat {
    b[p] as nat * 256 + b[p + 1] as nat
}

/// The big-endian value of the four bytes of `b` at `p`.
pub open spec fn be32(b: Seq<u8>, p: int) -> nat {
    be16(b, p) * 65536 + be16(b, p + 2)
}

/// The big-endian value of the eight bytes of `b` at `p`.
pub open spec fn be64(b: Seq<u8>, p: int) -> nat {
    be32(b, p) * 0x1_0000_0000 + be32(b, p + 4)
}

pub open spec fn spec_u8(b: Seq<u8>, p: int, context: Seq<char>) -> SpecRead<u8> {
    if p + 1 <= b.len() { Ok((b[p], p + 1)) } else { Err((eof_error(context), p)) }
}

pub open spec fn spec_bool(b: Seq<u8>, p: int, context: Seq<char>) -> SpecRead<bool> {
    if p + 1 <= b.len() { Ok((b[p] != 0, p + 1)) } else { Err((eof_error(context), p)) }
}

pub open spec fn spec_i8(b: Seq<u8>, p: int, context: Seq<char>) -> SpecRead<i8> {
    if p + 1 <= b.len() { Ok((b[p] as i8, p + 1)) } else { Err((eof_error(context), p)) }
}

pub open spec fn spec_u16(b: Seq<u8>, p: int, context: Seq<char>) -> SpecRead<u16> {
    if p + 2 <= b.len() { Ok((be16(b, p) as u16, p + 2)) } else { Err((eof_error(context), p)) }
}

pub open spec fn spec_i16(b: Seq<u8>, p: int, context: Seq<char>) -> SpecRead<i16> {
    if p + 2 <= b.len() { Ok((be16(b, p) as u16 as i16, p + 2)) } else { Err((eof_error(context), p)) }
}

pub open spec fn spec_u32(b: Seq<u8>, p: int, context: Seq<char>) -> SpecRead<u32> {
    if p + 4 <= b.len() { Ok((be32(b, p) as u32, p + 4)) } else { Err((eof_error(context), p)) }
}

pub open spec fn spec_i32(b: Seq<u8>, p: int, context: Seq<char>) -> SpecRead<i32> {
    if p + 4 <= b.len() { Ok((be32(b, p) as u32 as i32, p + 4)) } else { Err((eof_error(context), p)) }
}

pub open spec fn spec_u64(b: Seq<u8>, p: int, context: Seq<char>) -> SpecRead<u64> {
    if p + 8 <= b.len() { Ok((be64(b, p) as u64, p + 8)) } else { Err((eof_error(context), p)) }
}

pub open spec fn spec_bytes(b: Seq<u8>, p: int, n: int, context: Seq<char>) -> SpecRead<Seq<u8>> {
    if p + n <= b.len() { Ok((b.subrange(p, p + n), p + n)) } else { Err((eof_error(context), p)) }
}

pub open spec fn pow128(i: nat) -> nat
    decreases i,
{
    if i == 0 { 1 } else { 128 * pow128((i - 1) as nat) }
}

/// Reading a variable-length `u32` from byte `i` of the encoding at `p` on, with `acc` the
/// value of the bytes before: seven bits per byte, least significant group first, a set top
/// bit marks that another byte follows; the fifth byte may hold only the four top bits.
pub open spec fn varint_from(b: Seq<u8>, p: int, context: Seq<char>, i: nat, acc: nat) -> SpecRead<u32>
    decreases 5 - i,
{
    if i >= 5 {
        Err((DecodeErrorView::InvalidVarInt { context }, p + i))
    } else if p + i + 1 > b.len() {
        Err((eof_error(context), p + i))
    } else if i == 4 && b[p + i] >= 16 {
        Err((DecodeErrorView::InvalidVarInt { context }, p + i + 1))
    } else if b[p + i] < 128 {
        Ok(((acc + (b[p + i] % 128) as nat * pow128(i)) as u32, p + i + 1))
    } else {
        varint_from(b, p, context, i + 1, acc + (b[p + i] % 128) as nat * pow128(i))
    }
}

pub open spec fn spec_var_u32(b: Seq<u8>, p: int, context: Seq<char>) -> SpecRead<u32> {
    varint_from(b, p, context, 0, 0)
}

/// Integers are stored big-endian: the first byte is the most significant.
pub proof fn lemma_big_endian(b: Seq<u8>, p: int)
    ensures
        be16(b, p) == b[p] * 0x100 + b[p + 1],
        be32(b, p) == b[p] * 0x100_0000 + b[p + 1] * 0x1_0000 + b[p + 2] * 0x100 + b[p + 3],
        be64(b, p) == b[p] * 0x100_0000_0000_0000 + b[p + 1] * 0x1_0000_0000_0000 + b[p + 2] * 0x100_0000_0000
            + b[p + 3] * 0x1_0000_0000 + b[p + 4] * 0x100_0000 + b[p + 5] * 0x1_0000 + b[p + 6] * 0x100 + b[p + 7],
{
}

/// The number that `s` spells in groups of seven bits, least significant first: the low
/// seven bits of each byte, times 128 to the power of its place.
pub open spec fn base128_value(s: Seq<u8>) -> nat
    decreases s.len(),
{
    if s.len() == 0 {
        0
    } else {
        (s[0] % 128) as nat + 128 * base128_value(s.drop_first())
    }
}

proof fn lemma_varint_from_value(b: Seq<u8>, p: int, context: Seq<char>, i: nat, acc: nat)
    requires
        0 <= p,
        i <= 4,
        acc < pow128(i),
    ensures
        varint_from(b, p, context, i, acc) matches Ok((v, e)) ==> {
            &&& p + i < e <= p + 5
            &&& e <= b.len()
            &&& v as int == acc + pow128(i) * base128_value(b.subrange(p + i, e))
            &&& forall|k: int| p + i <= k < e - 1 ==> b[k] >= 128
            &&& b[e - 1] < 128
        },
    decreases 5 - i,
{
    if p + i + 1 <= b.len() && !(i == 4 && b[p + i] >= 16) {
        let x = (b[p + i] % 128) as nat;
        let m = pow128(i);
        assert(pow128(i + 1) == 128 * m);
        assert(m > 0) by { reveal_with_fuel(pow128, 5); }
        assert(x * m <= 127 * m) by (nonlinear_arith)
            requires x <= 127, m > 0;
        if b[p + i] < 128 {
            if i == 4 {
                assert(x < 16);
                assert(acc + x * m < 16 * m) by (nonlinear_arith)
                    requires x < 16, acc < m;
                assert(16 * m == 0x1_0000_0000) by { reveal_with_fuel(pow128, 5); }
            } else {
                assert(m <= 0x20_0000) by {
                    reveal_with_fuel(pow128, 4);
                }
                assert(acc + x * m < 128 * m);
            }
            let e = p + i + 1;
            assert(b.subrange(p + i, e).drop_first() =~= Seq::<u8>::empty());
            assert(base128_value(Seq::<u8>::empty()) == 0);
            assert(b.subrange(p + i, e)[0] == b[p + i]);
            assert(base128_value(b.subrange(p + i, e)) == x);
            assert(m * x == x * m) by (nonlinear_arith);
        } else if i < 4 {
            let acc2 = acc + x * m;
            assert(acc2 < 128 * m);
            lemma_varint_from_value(b, p, context, i + 1, acc2);
            if let Ok((v, e)) = varint_from(b, p, context, i, acc) {
                assert(b.subrange(p + i, e).drop_first() =~= b.subrange(p + i + 1, e));
                let rest = base128_value(b.subrange(p + i + 1, e));
                assert(base128_value(b.subrange(p + i, e)) == x + 128 * rest);
                assert(acc2 + 128 * m * rest == acc + m * (x + 128 * rest)) by (nonlinear_arith)
                    requires acc2 == acc + x * m;
            }
        }
    }
}

/// A variable-length integer at `p` is read least significant group first: it takes at most
/// five bytes, every byte but the last has its top bit set, and its value is the low seven
/// bits of each byte times 128 to the power of the byte's place.
pub proof fn lemma_var_u32_value(b: Seq<u8>, p: int, context: Seq<char>)
    requires
        0 <= p,
        spec_var_u32(b, p, context) is Ok,
    ensures
        ({
            let (v, e) = spec_var_u32(b, p, context)->Ok_0;
            &&& p < e <= p + 5
            &&& v as int == base128_value(b.subrange(p, e))
            &&& forall|k: int| p <= k < e - 1 ==> b[k] >= 128
            &&& b[e - 1] < 128
        }),
{
    lemma_varint_from_value(b, p, context, 0, 0);
    assert(pow128(0) == 1);
}

/// A length-prefixed text: a variable-length length, then that many CESU-8 bytes.
pub open spec fn spec_string(b: Seq<u8>, p: int, context: Seq<char>) -> SpecRead<Seq<char>> {
    match spec_var_u32(b, p, context) {
        Err(e) => Err(e),
        Ok((n, q)) => if q + n <= b.len() {
            match cesu8_decode(b.subrange(q, q + n)) {
                Some(s) => Ok((s, q + n)),
                None => Err((DecodeErrorView::InvalidUtf8 { context }, q + n)),
            }
        } else {
            Err((eof_error(context), q))
        },
    }
}

/// A text that may be absent: length 0 is no text, length `n + 1` is `n` CESU-8 bytes.
pub open spec fn spec_nullable_string(b: Seq<u8>, p: int, context: Seq<char>) -> SpecRead<Option<Seq<char>>> {
    match spec_var_u32(b, p, context) {
        Err(e) => Err(e),
        Ok((n, q)) => if n == 0 {
            Ok((None, q))
        } else if q + n - 1 <= b.len() {
            match cesu8_decode(b.subrange(q, q + n - 1)) {
                Some(s) => Ok((Some(s), q + n - 1)),
                None => Err((DecodeErrorView::InvalidUtf8 { context }, q + n - 1)),
            }
        } else {
            Err((eof_error(context), q))
        },
    }
}

/// Whether `serde_json` accepts `text` as a JSON document; this depends on the text alone.
pub uninterp spec fn json_accepts(text: Seq<char>) -> bool;

/// A length-prefixed text that must be a JSON document.
pub open spec fn spec_json_text(b: Seq<u8>, p: int, context: Seq<char>) -> SpecRead<Seq<char>> {
    match spec_string(b, p, context) {
        Err(e) => Err(e),
        Ok((s, q)) => if json_accepts(s) {
            Ok((s, q))
        } else {
            Err((DecodeErrorView::InvalidJson { context }, q))
        },
    }
}

/// The reader went from `before` to `after` as the outcome `s` says, and `r` reports it.
pub open spec fn read_as<T: View>(before: ReaderView, after: ReaderView, s: SpecRead<T::V>, r: Result<T, DecodeError>) -> bool {
    &&& after.bytes == before.bytes
    &&& before.cursor <= after.cursor <= after.bytes.len()
    &&& match s {
        Ok((v, e)) => r matches Ok(x) && x@ == v && after.cursor == e,
        Err((err, at)) => r matches Err(x) && x@ == err && is_read_error(err) && after.cursor == at,
    }
}

/// Like [`read_as`], for values compared by their deep view.
pub open spec fn read_as_deep<T: DeepView>(before: ReaderView, after: ReaderView, s: SpecRead<T::V>, r: Result<T, DecodeError>) -> bool {
    &&& after.bytes == before.bytes
    &&& before.cursor <= after.cursor <= after.bytes.len()
    &&& match s {
        Ok((v, e)) => r matches Ok(x) && x.deep_view() == v && after.cursor == e,
        Err((err, at)) => r matches Err(x) && x@ == err && is_read_error(err) && after.cursor == at,
    }
}

/// Like [`read_as`], for a list of values compared by their views.
pub open spec fn read_as_list<T: View>(before: ReaderView, after: ReaderView, s: SpecRead<Seq<T::V>>, r: Result<Vec<T>, DecodeError>) -> bool {
    &&& after.bytes == before.bytes
    &&& before.cursor <= after.cursor <= after.bytes.len()
    &&& match s {
        Ok((v, e)) => r matches Ok(x) && x@.map_values(|t: T| t@) == v && after.cursor == e,
        Err((err, at)) => r matches Err(x) && x@ == err && is_read_error(err) && after.cursor == at,
    }
}

/// `serde_json::Value`, the JSON documents that `serde_json` produces.
#[verifier::external_type_specification]
#[verifier::external_body]
pub struct ExJsonValue(serde_json::Value);

/// Parses a JSON document (`serde_json::from_str::<serde_json::Value>`). Whether it is
/// accepted is what `json_accepts` names; the document it produces is not described here.
#[verifier::external_body]
fn parse_json(text: &str) -> (r: Result<serde_json::Value, serde_json::Error>)
    ensures
        r is Ok == json_accepts(text@),
{
    serde_json::from_str(text)
}

/// Checks and converts UTF-8 bytes (`std::str::from_utf8`): `Ok` exactly for valid UTF-8,
/// with the characters it encodes.
#[verifier::external_body]
fn str_from_utf8(bytes: &[u8]) -> (r: Result<&str, std::str::Utf8Error>)
    ensures
        r is Ok == valid_utf8(bytes@),
        r matches Ok(s) ==> s@ == decode_utf8(bytes@),
{
    std::str::from_utf8(bytes)
}

/// Decodes the bytes of a text: UTF-8, or else CESU-8 as written by JavaScript.
pub fn decode_haxball_string(bytes: &[u8], context: &str) -> (r: Result<String, DecodeError>)
    ensures
        match cesu8_decode(bytes@) {
            Some(t) => r matches Ok(s) && s@ == t,
            None => r matches Err(e) && e@ == DecodeErrorView::InvalidUtf8 { context: context@ },
        },
{
    match str_from_utf8(bytes) {
        Ok(value) => {
            proof { lemma_utf8_is_cesu8(bytes@); }
            Ok(String::from_str(value))
        },
        Err(source) => match decode_cesu8_string(bytes) {
            Ok(s) => Ok(s),
            Err(()) => Err(DecodeError::InvalidUtf8 { context: String::from_str(context), source }),
        },
    }
}

/// A reader over a byte slice with a cursor that never passes the end.
pub struct ReplayReader<'a> {
    bytes: &'a [u8],
    cursor: usize,
}

/// The bytes a [`ReplayReader`] reads and the position of its cursor.
pub struct ReaderView {
    pub bytes: Seq<u8>,
    pub cursor: int,
}

impl<'a> View for ReplayReader<'a> {
    type V = ReaderView;

    closed spec fn view(&self) -> ReaderView {
        ReaderView { bytes: self.bytes@, cursor: self.cursor as int }
    }
}

impl<'a> ReplayReader<'a> {
    #[verifier::type_invariant]
    spec fn cursor_in_bounds(self) -> bool {
        self.cursor <= self.bytes@.len()
    }

    /// A reader positioned at the first byte of `bytes`.
    pub fn new(bytes: &'a [u8]) -> (reader: Self)
        ensures
            reader@.bytes == bytes@,
            reader@.cursor == 0,
    {
        ReplayReader { bytes, cursor: 0 }
    }

    /// Number of bytes after the cursor.
    pub fn remaining(&self) -> (n: usize)
        ensures
            n == self@.bytes.len() - self@.cursor,
            self@.cursor <= self@.bytes.len(),
    {
        proof { use_type_invariant(self); }
        self.bytes.len() - self.cursor
    }

    /// True when the cursor is at the end.
    pub fn is_eof(&self) -> (b: bool)
        ensures
            b == (self@.cursor == self@.bytes.len()),
            self@.cursor <= self@.bytes.len(),
    {
        self.remaining() == 0
    }

    /// `Ok` when every byte has been read, else `TrailingBytes` with the count of unread bytes.
    pub fn ensure_eof(&self, context: &str) -> (r: Result<(), DecodeError>)
        ensures
            self@.cursor <= self@.bytes.len(),
            self@.cursor == self@.bytes.len() ==> r is Ok,
            self@.cursor < self@.bytes.len() ==> (r matches Err(e) && e@ == trailing_error(
                context@,
                self@.bytes.len() - self@.cursor,
            )),
    {
        if self.is_eof() {
            Ok(())
        } else {
            Err(DecodeError::TrailingBytes { context: String::from_str(context), remaining: self.remaining() })
        }
    }

    pub fn read_u8(&mut self, context: &str) -> (r: Result<u8, DecodeError>)
        ensures
            read_as(old(self)@, final(self)@, spec_u8(old(self)@.bytes, old(self)@.cursor, context@), r),
            r is Err ==> final(self)@ == old(self)@,
    {
        proof { use_type_invariant(&*self); }
        if self.bytes.len() - self.cursor < 1 {
            return Err(DecodeError::UnexpectedEof { context: String::from_str(context) });
        }
        let value = self.bytes[self.cursor];
        self.cursor = self.cursor + 1;
        Ok(value)
    }

    /// A byte read as a flag: any value but zero is `true`.
    pub fn read_bool(&mut self, context: &str) -> (r: Result<bool, DecodeError>)
        ensures
            read_as(old(self)@, final(self)@, spec_bool(old(self)@.bytes, old(self)@.cursor, context@), r),
            r is Err ==> final(self)@ == old(self)@,
    {
        let v = self.read_u8(context)?;
        Ok(v != 0)
    }

    pub fn read_i8(&mut self, context: &str) -> (r: Result<i8, DecodeError>)
        ensures
            read_as(old(self)@, final(self)@, spec_i8(old(self)@.bytes, old(self)@.cursor, context@), r),
            r is Err ==> final(self)@ == old(self)@,
    {
        let v = self.read_u8(context)?;
        Ok(v as i8)
    }

    /// The bytes from the cursor on, `length` of them.
    pub fn read_bytes(&mut self, length: usize, context: &str) -> (r: Result<&'a [u8], DecodeError>)
        ensures
            read_as(old(self)@, final(self)@, spec_bytes(old(self)@.bytes, old(self)@.cursor, length as int, context@), r),
            r is Err ==> final(self)@ == old(self)@,
    {
        proof { use_type_invariant(&*self); }
        if self.bytes.len() - self.cursor < length {
            return Err(DecodeError::UnexpectedEof { context: String::from_str(context) });
        }
        let start = self.cursor;
        let end = start + length;
        self.cursor = end;
        Ok(&self.bytes[start..end])
    }

    pub fn read_u16(&mut self, context: &str) -> (r: Result<u16, DecodeError>)
        ensures
            read_as(old(self)@, final(self)@, spec_u16(old(self)@.bytes, old(self)@.cursor, context@), r),
            r is Err ==> final(self)@ == old(self)@,
    {
        let bytes = self.read_bytes(2, context)?;
        Ok(bytes[0] as u16 * 256 + bytes[1] as u16)
    }

    pub fn read_i16(&mut self, context: &str) -> (r: Result<i16, DecodeError>)
        ensures
            read_as(old(self)@, final(self)@, spec_i16(old(self)@.bytes, old(self)@.cursor, context@), r),
            r is Err ==> final(self)@ == old(self)@,
    {
        let v = self.read_u16(context)?;
        Ok(v as i16)
    }

    pub fn read_u32(&mut self, context: &str) -> (r: Result<u32, DecodeError>)
        ensures
            read_as(old(self)@, final(self)@, spec_u32(old(self)@.bytes, old(self)@.cursor, context@), r),
            r is Err ==> final(self)@ == old(self)@,
    {
        let bytes = self.read_bytes(4, context)?;
        let high = bytes[0] as u32 * 256 + bytes[1] as u32;
        let low = bytes[2] as u32 * 256 + bytes[3] as u32;
        Ok(high * 65536 + low)
    }

    pub fn read_i32(&mut self, context: &str) -> (r: Result<i32, DecodeError>)
        ensures
            read_as(old(self)@, final(self)@, spec_i32(old(self)@.bytes, old(self)@.cursor, context@), r),
            r is Err ==> final(self)@ == old(self)@,
    {
        let v = self.read_u32(context)?;
        Ok(v as i32)
    }

    /// Four bytes holding an `f32`; its IEEE-754 bit pattern is returned.
    pub fn read_f32_bits(&mut self, context: &str) -> (r: Result<u32, DecodeError>)
        ensures
            read_as(old(self)@, final(self)@, spec_u32(old(self)@.bytes, old(self)@.cursor, context@), r),
            r is Err ==> final(self)@ == old(self)@,
    {
        self.read_u32(context)
    }

    /// Eight bytes holding an `f64`; its IEEE-754 bit pattern is returned.
    pub fn read_f64_bits(&mut self, context: &str) -> (r: Result<u64, DecodeError>)
        ensures
            read_as(old(self)@, final(self)@, spec_u64(old(self)@.bytes, old(self)@.cursor, context@), r),
            r is Err ==> final(self)@ == old(self)@,
    {
        let bytes = self.read_bytes(8, context)?;
        let w0 = bytes[0] as u64 * 256 + bytes[1] as u64;
        let w1 = bytes[2] as u64 * 256 + bytes[3] as u64;
        let w2 = bytes[4] as u64 * 256 + bytes[5] as u64;
        let w3 = bytes[6] as u64 * 256 + bytes[7] as u64;
        let high = w0 * 65536 + w1;
        let low = w2 * 65536 + w3;
        Ok(high * 0x1_0000_0000 + low)
    }

    pub fn read_var_u32(&mut self, context: &str) -> (r: Result<u32, DecodeError>)
        ensures
            read_as(old(self)@, final(self)@, spec_var_u32(old(self)@.bytes, old(self)@.cursor, context@), r),
    {
        proof { use_type_invariant(&*self); }
        let ghost b = self@.bytes;
        let ghost p = self@.cursor;
        let mut value: u32 = 0;
        let mut multiplier: u32 = 1;
        let mut byte_index: usize = 0;
        while byte_index < 5
            invariant
                b == old(self)@.bytes,
                p == old(self)@.cursor,
                self@.bytes == b,
                self@.cursor == p + byte_index,
                self@.cursor <= b.len(),
                byte_index <= 4 ==> multiplier == pow128(byte_index as nat),
                byte_index <= 4 ==> value < pow128(byte_index as nat),
                byte_index <= 4,
                spec_var_u32(b, p, context@) == varint_from(b, p, context@, byte_index as nat, value as nat),
            decreases 5 - byte_index,
        {
            proof { reveal_with_fuel(pow128, 5); }
            let ghost i = byte_index as nat;
            let ghost acc = value as nat;
            let byte = self.read_u8(context)?;
            assert(b[p + i] == byte);
            if byte_index == 4 && byte >= 16 {
                return Err(DecodeError::InvalidVarInt { context: String::from_str(context) });
            }
            let low = (byte % 128) as u32;
            proof {
                let m = multiplier as nat;
                let v = value as nat;
                let l = low as nat;
                assert(v + l * m < 128 * m) by (nonlinear_arith)
                    requires v < m, l < 128;
                if byte_index == 4 {
                    assert(v + l * m < 16 * m) by (nonlinear_arith)
                        requires v < m, l < 16;
                }
            }
            value = value + low * multiplier;
            if byte < 128 {
                return Ok(value);
            }
            byte_index = byte_index + 1;
            multiplier = multiplier * 128;
        }
        Err(DecodeError::InvalidVarInt { context: String::from_str(context) })
    }

    /// The next `length` bytes, copied.
    pub fn read_bytes_vec(&mut self, length: usize, context: &str) -> (r: Result<Vec<u8>, DecodeError>)
        ensures
            read_as(old(self)@, final(self)@, spec_bytes(old(self)@.bytes, old(self)@.cursor, length as int, context@), r),
            r is Err ==> final(self)@ == old(self)@,
    {
        let bytes = self.read_bytes(length, context)?;
        Ok(copy_bytes(bytes))
    }

    /// Every byte after the cursor, copied; the cursor moves to the end.
    pub fn read_remaining_vec(&mut self) -> (v: Vec<u8>)
        ensures
            final(self)@.bytes == old(self)@.bytes,
            final(self)@.cursor == final(self)@.bytes.len(),
            old(self)@.cursor <= old(self)@.bytes.len(),
            v@ == old(self)@.bytes.subrange(old(self)@.cursor, old(self)@.bytes.len() as int),
    {
        proof { use_type_invariant(&*self); }
        let start = self.cursor;
        self.cursor = self.bytes.len();
        copy_bytes(&self.bytes[start..self.bytes.len()])
    }

    /// A length-prefixed text.
    pub fn read_string(&mut self, context: &str) -> (r: Result<String, DecodeError>)
        ensures
            read_as(old(self)@, final(self)@, spec_string(old(self)@.bytes, old(self)@.cursor, context@), r),
    {
        let length = self.read_var_u32(context)? as usize;
        let bytes = self.read_bytes(length, context)?;
        decode_haxball_string(bytes, context)
    }

    /// A text that may be absent: length 0 is `None`, length `n + 1` is `n` bytes of text.
    pub fn read_nullable_string(&mut self, context: &str) -> (r: Result<Option<String>, DecodeError>)
        ensures
            read_as_deep(old(self)@, final(self)@, spec_nullable_string(old(self)@.bytes, old(self)@.cursor, context@), r),
    {
        let length = self.read_var_u32(context)? as usize;
        if length == 0 {
            return Ok(None);
        }
        let bytes = self.read_bytes(length - 1, context)?;
        let s = decode_haxball_string(bytes, context)?;
        Ok(Some(s))
    }

    /// A length-prefixed text that `serde_json` accepts as a JSON document; the text is
    /// returned.
    pub fn read_json_text(&mut self, context: &str) -> (r: Result<String, DecodeError>)
        ensures
            read_as(old(self)@, final(self)@, spec_json_text(old(self)@.bytes, old(self)@.cursor, context@), r),
    {
        let text = self.read_string(context)?;
        match parse_json(text.as_str()) {
            Ok(_document) => Ok(text),
            Err(source) => Err(DecodeError::InvalidJson { context: String::from_str(context), source }),
        }
    }
}

/// A copy of `bytes`.
pub fn copy_bytes(bytes: &[u8]) -> (v: Vec<u8>)
    ensures
        v@ == bytes@,
{
    let mut v: Vec<u8> = Vec::new();
    let mut i: usize = 0;
    while i < bytes.len()
        invariant
            i <= bytes@.len(),
            v@ == bytes@.subrange(0, i as int),
        decreases bytes@.len() - i,
    {
        v.push(bytes[i]);
        i = i + 1;
        assert(v@ =~= bytes@.subrange(0, i as int));
    }
    assert(bytes@.subrange(0, bytes@.len() as int) =~= bytes@);
    v
}

} // verus!

verus! {

/// Reading `n` items one after another from `p` on; `item(at, i)` reads item `i` at `at`.
pub open spec fn spec_repeat<T>(n: nat, item: spec_fn(int, nat) -> SpecRead<T>, p: int) -> SpecRead<Seq<T>>
    decreases n,
{
    if n == 0 {
        Ok((Seq::empty(), p))
    } else {
        match spec_repeat((n - 1) as nat, item, p) {
            Err(e) => Err(e),
            Ok((items, at)) => match item(at, (n - 1) as nat) {
                Err(e) => Err(e),
                Ok((x, next)) => Ok((items.push(x), next)),
            },
        }
    }
}

/// Once reading the first `k` items fails, reading more fails the same way.
pub proof fn lemma_repeat_error_persists<T>(item: spec_fn(int, nat) -> SpecRead<T>, p: int, k: nat, n: nat)
    requires
        k <= n,
        spec_repeat(k, item, p) is Err,
    ensures
        spec_repeat(n, item, p) == spec_repeat(k, item, p),
    decreases n - k,
{
    if k < n {
        lemma_repeat_error_persists(item, p, k, (n - 1) as nat);
    }
}

} // verus!

verus! {

/// Reading `n` items gives `n` items.
pub proof fn lemma_repeat_length<T>(item: spec_fn(int, nat) -> SpecRead<T>, p: int, n: nat)
    requires
        spec_repeat(n, item, p) is Ok,
    ensures
        spec_repeat(n, item, p)->Ok_0.0.len() == n,
    decreases n,
{
    if n > 0 {
        lemma_repeat_length(item, p, (n - 1) as nat);
    }
}

/// `item` reads `x` as item `i` at some position.
pub open spec fn read_somewhere<T>(item: spec_fn(int, nat) -> SpecRead<T>, i: nat, x: T) -> bool {
    exists|q: int| #[trigger] item(q, i) == Ok::<(T, int), (DecodeErrorView, int)>((x, item(q, i)->Ok_0.1))
}

/// Every item of a list read with [`spec_repeat`] is what `item` reads for its index at some
/// position.
pub proof fn lemma_repeat_items<T>(item: spec_fn(int, nat) -> SpecRead<T>, p: int, n: nat)
    requires
        spec_repeat(n, item, p) is Ok,
    ensures
        spec_repeat(n, item, p)->Ok_0.0.len() == n,
        forall|i: int| 0 <= i < n ==> read_somewhere(item, i as nat, #[trigger] spec_repeat(n, item, p)->Ok_0.0[i]),
    decreases n,
{
    if n > 0 {
        lemma_repeat_items(item, p, (n - 1) as nat);
        let (items, at) = spec_repeat((n - 1) as nat, item, p)->Ok_0;
        let all = spec_repeat(n, item, p)->Ok_0.0;
        assert forall|i: int| 0 <= i < n implies read_somewhere(item, i as nat, #[trigger] all[i]) by {
            if i < n - 1 {
                assert(all[i] == items[i]);
            } else {
                assert(item(at, (n - 1) as nat) == Ok::<(T, int), (DecodeErrorView, int)>((all[i], item(at, (n - 1) as nat)->Ok_0.1)));
            }
        }
    }
}

} // verus!
