//! Text in replays: UTF-8, or CESU-8 as written by JavaScript (UTF-16 surrogate pairs each
//! encoded as a three-byte sequence).
use vstd::prelude::*;
use vstd::utf8::*;

use crate::text::push_char;

verus! {

/// The first code unit of `s` and the number of bytes that encode it, where the sequences of
/// UTF-8 are read without excluding the surrogate range; `None` where `s` does not start with
/// such a sequence.
pub open spec fn cesu8_first_unit(s: Seq<u8>) -> Option<(u32, int)> {
    if s.len() < 1 {
        None
    } else if s[0] < 0x80 {
        Some((s[0] as u32, 1))
    } else if 0xc2 <= s[0] <= 0xdf {
        if s.len() >= 2 && is_continuation_byte(s[1]) {
            Some((codepoint_width_2(s[0], s[1]), 2))
        } else {
            None
        }
    } else if 0xe0 <= s[0] <= 0xef {
        if s.len() >= 3 && is_continuation_byte(s[1]) && is_continuation_byte(s[2]) && !(s[0] == 0xe0
            && continuation_bits(s[1]) < 0x20) {
            Some((codepoint_width_3(s[0], s[1], s[2]), 3))
        } else {
            None
        }
    } else if 0xf0 <= s[0] <= 0xf4 {
        if s.len() >= 4 && is_continuation_byte(s[1]) && is_continuation_byte(s[2])
            && is_continuation_byte(s[3]) && !(s[0] == 0xf0 && continuation_bits(s[1]) < 0x10)
            && !(s[0] == 0xf4 && continuation_bits(s[1]) > 0x0f) {
            Some((codepoint_width_4(s[0], s[1], s[2], s[3]), 4))
        } else {
            None
        }
    } else {
        None
    }
}

pub open spec fn is_high_surrogate(u: u32) -> bool {
    0xd800 <= u <= 0xdbff
}

pub open spec fn is_low_surrogate(u: u32) -> bool {
    0xdc00 <= u <= 0xdfff
}

/// The scalar value that a UTF-16 surrogate pair encodes.
pub open spec fn pair_scalar(high: u32, low: u32) -> u32 {
    (0x10000 + (high - 0xd800) * 1024 + (low - 0xdc00)) as u32
}

pub open spec fn prepend_chars(prefix: Seq<char>, rest: Option<Seq<char>>) -> Option<Seq<char>> {
    match rest {
        Some(t) => Some(prefix + t),
        None => None,
    }
}

/// The text that the CESU-8 bytes `s` encode; `None` where they are not CESU-8.
/// A high surrogate must be followed by a low one and the pair stands for one character;
/// a low surrogate alone is rejected.
pub open spec fn cesu8_decode(s: Seq<u8>) -> Option<Seq<char>>
    decreases s.len(),
{
    if s.len() == 0 {
        Some(Seq::empty())
    } else {
        match cesu8_first_unit(s) {
            None => None,
            Some((u, w)) => {
                let rest = s.subrange(w, s.len() as int);
                if is_high_surrogate(u) {
                    match cesu8_first_unit(rest) {
                        None => None,
                        Some((low, w2)) => {
                            if is_low_surrogate(low) && is_scalar(pair_scalar(u, low)) {
                                prepend_chars(
                                    seq![pair_scalar(u, low) as char],
                                    cesu8_decode(rest.subrange(w2, rest.len() as int)),
                                )
                            } else {
                                None
                            }
                        },
                    }
                } else if is_low_surrogate(u) || !is_scalar(u) {
                    None
                } else {
                    prepend_chars(seq![u as char], cesu8_decode(rest))
                }
            },
        }
    }
}

proof fn lemma_first_scalar_is_first_unit(s: Seq<u8>)
    requires
        valid_first_scalar(s),
    ensures
        cesu8_first_unit(s) == Some((decode_first_scalar(s), length_of_first_scalar(s))),
        is_scalar(decode_first_scalar(s)),
        !is_high_surrogate(decode_first_scalar(s)),
        !is_low_surrogate(decode_first_scalar(s)),
{
    let b0 = s[0];
    if is_leading_byte_width_1(b0) {
        assert(b0 & 0x7f == b0) by (bit_vector) requires b0 <= 0x7f;
    } else if is_leading_byte_width_2(b0) {
        let b1 = s[1];
        assert(b0 >= 0xc2) by (bit_vector)
            requires
                0xc0 <= b0 <= 0xdf,
                0x80 <= ((((b0 & 0x1F) as u32) << 6) | ((b1 & 0x3f) as u32)),
        ;
        assert(((((b0 & 0x1F) as u32) << 6) | ((b1 & 0x3f) as u32)) <= 0x7ff) by (bit_vector);
    } else if is_leading_byte_width_3(b0) {
        let b1 = s[1];
        let b2 = s[2];
        assert(!(b0 == 0xe0 && (b1 & 0x3f) < 0x20)) by (bit_vector)
            requires
                0x800 <= ((((b0 & 0x0F) as u32) << 12) | (((b1 & 0x3f) as u32) << 6) | ((b2 & 0x3f) as u32)),
        ;
        assert(((((b0 & 0x0F) as u32) << 12) | (((b1 & 0x3f) as u32) << 6) | ((b2 & 0x3f) as u32)) <= 0xffff) by (bit_vector);
    } else {
        let b1 = s[1];
        let b2 = s[2];
        let b3 = s[3];
        assert(b0 <= 0xf4 && !(b0 == 0xf0 && (b1 & 0x3f) < 0x10) && !(b0 == 0xf4 && (b1 & 0x3f) > 0x0f)) by (bit_vector)
            requires
                0xf0 <= b0 <= 0xf7,
                0x10000 <= ((((b0 & 0x07) as u32) << 18) | (((b1 & 0x3f) as u32) << 12) | (((b2 & 0x3f) as u32) << 6) | ((b3 & 0x3f) as u32)),
                ((((b0 & 0x07) as u32) << 18) | (((b1 & 0x3f) as u32) << 12) | (((b2 & 0x3f) as u32) << 6) | ((b3 & 0x3f) as u32)) <= 0x10ffff,
        ;
    }
}

/// Every UTF-8 text is CESU-8 text that stands for the same characters: normalizing
/// CESU-8 never changes text that is already valid UTF-8.
pub proof fn lemma_utf8_is_cesu8(s: Seq<u8>)
    requires
        valid_utf8(s),
    ensures
        cesu8_decode(s) == Some(decode_utf8(s)),
    decreases s.len(),
{
    if s.len() > 0 {
        lemma_first_scalar_is_first_unit(s);
        let rest = pop_first_scalar(s);
        assert(rest.len() < s.len());
        lemma_utf8_is_cesu8(rest);
    }
}

/// The three bytes that stand for the 16-bit code unit `u` from 0x800 up, surrogates
/// included.
pub open spec fn unit_bytes(u: u32) -> Seq<u8> {
    seq![leading_byte_width_3(u), second_last_continuation_byte(u), last_continuation_byte(u)]
}

/// The UTF-16 high surrogate of a character from 0x10000 up.
pub open spec fn high_surrogate(c: u32) -> u32 {
    (0xd800 + (c - 0x10000) / 1024) as u32
}

/// The UTF-16 low surrogate of a character from 0x10000 up.
pub open spec fn low_surrogate(c: u32) -> u32 {
    (0xdc00 + (c - 0x10000) % 1024) as u32
}

/// The CESU-8 bytes of one character: as in UTF-8 below 0x10000, otherwise the bytes of
/// its two UTF-16 surrogates.
pub open spec fn cesu8_encode_char(c: u32) -> Seq<u8> {
    if c < 0x80 {
        seq![leading_byte_width_1(c)]
    } else if c < 0x800 {
        seq![leading_byte_width_2(c), last_continuation_byte(c)]
    } else if c < 0x10000 {
        unit_bytes(c)
    } else {
        unit_bytes(high_surrogate(c)) + unit_bytes(low_surrogate(c))
    }
}

/// The CESU-8 encoding of a text, as JavaScript writes it.
pub open spec fn cesu8_encode(chars: Seq<char>) -> Seq<u8>
    decreases chars.len(),
{
    if chars.len() == 0 {
        seq![]
    } else {
        cesu8_encode_char(chars[0] as u32) + cesu8_encode(chars.drop_first())
    }
}

proof fn lemma_unit_bytes_bits(u: u32)
    by (bit_vector)
    requires
        0x800 <= u <= 0xffff,
    ensures
        0xe0 <= leading_byte_width_3(u) <= 0xef,
        0x80 <= second_last_continuation_byte(u) <= 0xbf,
        0x80 <= last_continuation_byte(u) <= 0xbf,
        !(leading_byte_width_3(u) == 0xe0 && (second_last_continuation_byte(u) & 0x3f) < 0x20),
        (((leading_byte_width_3(u) & 0x0f) as u32) << 12) | (((second_last_continuation_byte(u) & 0x3f) as u32) << 6)
            | ((last_continuation_byte(u) & 0x3f) as u32) == u,
{
}

proof fn lemma_width_2_bits(c: u32)
    by (bit_vector)
    requires
        0x80 <= c < 0x800,
    ensures
        0xc2 <= leading_byte_width_2(c) <= 0xdf,
        0x80 <= last_continuation_byte(c) <= 0xbf,
        (((leading_byte_width_2(c) & 0x1f) as u32) << 6) | ((last_continuation_byte(c) & 0x3f) as u32) == c,
{
}

proof fn lemma_width_1_bits(c: u32)
    by (bit_vector)
    requires
        c < 0x80,
    ensures
        leading_byte_width_1(c) < 0x80,
        leading_byte_width_1(c) as u32 == c,
{
}

/// The first unit of the bytes of code unit `u`, whatever follows them, is `u`.
proof fn lemma_unit_bytes_first(u: u32, rest: Seq<u8>)
    requires
        0x800 <= u <= 0xffff,
    ensures
        cesu8_first_unit(unit_bytes(u) + rest) == Some((u, 3int)),
        (unit_bytes(u) + rest).subrange(3, (unit_bytes(u) + rest).len() as int) == rest,
{
    lemma_unit_bytes_bits(u);
    let s = unit_bytes(u) + rest;
    assert(s[0] == leading_byte_width_3(u) && s[1] == second_last_continuation_byte(u) && s[2] == last_continuation_byte(u));
    assert(s.subrange(3, s.len() as int) =~= rest);
}

/// The first unit of the bytes of a character below 0x10000, whatever follows them, is the
/// character, and it takes those bytes.
proof fn lemma_encode_char_first(c: u32, rest: Seq<u8>)
    requires
        is_scalar(c),
        c < 0x10000,
    ensures
        cesu8_first_unit(cesu8_encode_char(c) + rest) == Some((c, cesu8_encode_char(c).len() as int)),
        (cesu8_encode_char(c) + rest).subrange(cesu8_encode_char(c).len() as int, (cesu8_encode_char(c) + rest).len() as int)
            == rest,
{
    let s = cesu8_encode_char(c) + rest;
    if c < 0x80 {
        lemma_width_1_bits(c);
        assert(s[0] == leading_byte_width_1(c));
    } else if c < 0x800 {
        lemma_width_2_bits(c);
        assert(s[0] == leading_byte_width_2(c) && s[1] == last_continuation_byte(c));
    } else {
        lemma_unit_bytes_first(c, rest);
    }
    assert(s.subrange(cesu8_encode_char(c).len() as int, s.len() as int) =~= rest);
}

/// Decoding the CESU-8 encoding of a text gives the text back: every character, those
/// written as a surrogate pair included.
pub proof fn lemma_cesu8_round_trip(chars: Seq<char>)
    ensures
        cesu8_decode(cesu8_encode(chars)) == Some(chars),
    decreases chars.len(),
{
    if chars.len() > 0 {
        let c = chars[0] as u32;
        let rest = cesu8_encode(chars.drop_first());
        let s = cesu8_encode(chars);
        assert(is_scalar(c)) by { char_is_scalar(chars[0]); }
        lemma_cesu8_round_trip(chars.drop_first());
        assert(c as char == chars[0]) by { char_u32_cast(chars[0], c); }
        if c < 0x10000 {
            lemma_encode_char_first(c, rest);
        } else {
            let h = high_surrogate(c);
            let l = low_surrogate(c);
            assert(is_high_surrogate(h) && is_low_surrogate(l) && pair_scalar(h, l) == c);
            lemma_unit_bytes_first(h, unit_bytes(l) + rest);
            lemma_unit_bytes_first(l, rest);
            assert(s =~= unit_bytes(h) + (unit_bytes(l) + rest));
        }
        assert(seq![chars[0]] + chars.drop_first() =~= chars);
    }
}

/// Converts a `u32` to a `char` (`char::from_u32`): `None` for surrogates and values past
/// `0x10FFFF`.
#[verifier::external_body]
fn char_from_u32(v: u32) -> (c: Option<char>)
    ensures
        c == (if is_scalar(v) { Some(v as char) } else { None::<char> }),
{
    char::from_u32(v)
}

fn read_byte(bytes: &[u8], cursor: &mut usize) -> (r: Result<u8, ()>)
    requires
        *old(cursor) <= bytes@.len(),
    ensures
        *final(cursor) <= bytes@.len(),
        *old(cursor) < bytes@.len() ==> r == Ok::<u8, ()>(bytes@[*old(cursor) as int]) && *final(cursor)
            == *old(cursor) + 1,
        *old(cursor) >= bytes@.len() ==> r is Err,
{
    if *cursor < bytes.len() {
        let byte = bytes[*cursor];
        *cursor = *cursor + 1;
        Ok(byte)
    } else {
        Err(())
    }
}

fn read_continuation_byte(bytes: &[u8], cursor: &mut usize) -> (r: Result<u8, ()>)
    requires
        *old(cursor) <= bytes@.len(),
    ensures
        *final(cursor) <= bytes@.len(),
        (*old(cursor) < bytes@.len() && is_continuation_byte(bytes@[*old(cursor) as int])) ==> r
            == Ok::<u8, ()>(bytes@[*old(cursor) as int] & 0x3f) && *final(cursor) == *old(cursor) + 1,
        !(*old(cursor) < bytes@.len() && is_continuation_byte(bytes@[*old(cursor) as int])) ==> r is Err,
{
    let byte = read_byte(bytes, cursor)?;
    if !(0x80 <= byte && byte <= 0xbf) {
        return Err(());
    }
    Ok(byte & 0x3f)
}

proof fn lemma_masked_is_bits(b: u8)
    ensures
        (b & 0x3f) as u32 == continuation_bits(b),
        (b & 0x3f) < 0x40,
{
    assert((b & 0x3f) < 0x40) by (bit_vector);
}

/// Reads one code unit at `cursor`.
fn read_cesu8_code_unit(bytes: &[u8], cursor: &mut usize) -> (r: Result<u32, ()>)
    requires
        *old(cursor) <= bytes@.len(),
    ensures
        *final(cursor) <= bytes@.len(),
        match cesu8_first_unit(bytes@.subrange(*old(cursor) as int, bytes@.len() as int)) {
            Some((u, w)) => r == Ok::<u32, ()>(u) && *final(cursor) == *old(cursor) + w,
            None => r is Err,
        },
{
    let ghost s = bytes@.subrange(*cursor as int, bytes@.len() as int);
    let first = read_byte(bytes, cursor)?;
    if first < 0x80 {
        return Ok(first as u32);
    }
    if 0xc2 <= first && first <= 0xdf {
        let second = read_continuation_byte(bytes, cursor)?;
        proof { lemma_masked_is_bits(s[1]); }
        return Ok((((first & 0x1f) as u32) << 6) | second as u32);
    }
    if 0xe0 <= first && first <= 0xef {
        let second = read_continuation_byte(bytes, cursor)?;
        let third = read_continuation_byte(bytes, cursor)?;
        proof {
            lemma_masked_is_bits(s[1]);
            lemma_masked_is_bits(s[2]);
        }
        if first == 0xe0 && second < 0x20 {
            return Err(());
        }
        return Ok((((first & 0x0f) as u32) << 12) | ((second as u32) << 6) | third as u32);
    }
    if 0xf0 <= first && first <= 0xf4 {
        let second = read_continuation_byte(bytes, cursor)?;
        let third = read_continuation_byte(bytes, cursor)?;
        let fourth = read_continuation_byte(bytes, cursor)?;
        proof {
            lemma_masked_is_bits(s[1]);
            lemma_masked_is_bits(s[2]);
            lemma_masked_is_bits(s[3]);
        }
        if first == 0xf0 && second < 0x10 {
            return Err(());
        }
        if first == 0xf4 && second > 0x0f {
            return Err(());
        }
        return Ok((((first & 0x07) as u32) << 18) | ((second as u32) << 12) | ((third as u32) << 6)
            | fourth as u32);
    }
    Err(())
}

/// Decodes CESU-8 text, in which characters outside the basic plane may be written as a
/// pair of three-byte surrogate sequences. Every UTF-8 text is CESU-8 text with the same
/// characters (see [`lemma_utf8_is_cesu8`]).
pub fn decode_cesu8_string(bytes: &[u8]) -> (r: Result<String, ()>)
    ensures
        match cesu8_decode(bytes@) {
            Some(t) => r matches Ok(s) && s@ == t,
            None => r is Err,
        },
{
    let mut output = String::new();
    let mut cursor: usize = 0;
    assert(bytes@.subrange(0, bytes@.len() as int) =~= bytes@);
    while cursor < bytes.len()
        invariant
            cursor <= bytes@.len(),
            cesu8_decode(bytes@) == prepend_chars(
                output@,
                cesu8_decode(bytes@.subrange(cursor as int, bytes@.len() as int)),
            ),
        decreases bytes@.len() - cursor,
    {
        let ghost rest = bytes@.subrange(cursor as int, bytes@.len() as int);
        let ghost before = output@;
        let code_unit = read_cesu8_code_unit(bytes, &mut cursor);
        let code_unit = match code_unit {
            Ok(u) => u,
            Err(()) => return Err(()),
        };
        let ghost w = cesu8_first_unit(rest).unwrap().1;
        assert(rest.subrange(w, rest.len() as int) =~= bytes@.subrange(cursor as int, bytes@.len() as int));
        if 0xd800 <= code_unit && code_unit <= 0xdbff {
            let ghost rest2 = bytes@.subrange(cursor as int, bytes@.len() as int);
            let low = read_cesu8_code_unit(bytes, &mut cursor);
            let low = match low {
                Ok(l) => l,
                Err(()) => return Err(()),
            };
            let ghost w2 = cesu8_first_unit(rest2).unwrap().1;
            assert(rest2.subrange(w2, rest2.len() as int) =~= bytes@.subrange(cursor as int, bytes@.len() as int));
            if !(0xdc00 <= low && low <= 0xdfff) {
                return Err(());
            }
            let scalar = 0x10000 + (((code_unit - 0xd800) * 1024) + (low - 0xdc00));
            assert(scalar == pair_scalar(code_unit, low));
            match char_from_u32(scalar) {
                Some(c) => push_char(&mut output, c),
                None => return Err(()),
            }
            assert(output@ =~= before + seq![pair_scalar(code_unit, low) as char]);
        } else if 0xdc00 <= code_unit && code_unit <= 0xdfff {
            return Err(());
        } else {
            match char_from_u32(code_unit) {
                Some(c) => push_char(&mut output, c),
                None => return Err(()),
            }
            assert(output@ =~= before + seq![code_unit as char]);
        }
        proof {
            let tail = cesu8_decode(bytes@.subrange(cursor as int, bytes@.len() as int));
            match tail {
                Some(t) => assert(output@ + t =~= before + (output@.subrange(before.len() as int, output@.len() as int) + t)),
                None => {},
            }
        }
    }
    assert(bytes@.subrange(cursor as int, bytes@.len() as int) =~= Seq::<u8>::empty());
    assert(output@ + Seq::<char>::empty() =~= output@);
    Ok(output)
}

} // verus!
