//! Chars and strings in UTF-8, UTF-16 and UTF-32.

use vstd::prelude::*;
use crate::error::EncodingError;
use crate::error::StringError;
use crate::io::Read;
use crate::settings::BitWidth;
use crate::settings::Endianness;
use crate::settings::StrEncoding;
use crate::settings::StringRepr;
use crate::wire::fixed::fixed_bytes;
use crate::wire::fixed::fixed_encode;
use crate::wire::number::fixed_parse;
use crate::wire::number::read_fixed;
use crate::wire::number::read_one;
use crate::wire::number::reads;
use crate::wire::number::Parsed;

verus! {

/// Whether `v` is a Unicode scalar value: a code point that is no surrogate.
pub open spec fn is_scalar(v: nat) -> bool {
    v < 0xD800 || 0xE000 <= v <= 0x10FFFF
}

/// `char::from_u32`: the char with the given code, where the code is a
/// Unicode scalar value, and nothing otherwise.
pub assume_specification[ char::from_u32 ](i: u32) -> (r: Option<char>)
    ensures
        is_scalar(i as nat) ==> r == Some(i as char),
        !is_scalar(i as nat) ==> r is None,
;

/// The UTF-8 bytes of the code point `c`: one byte below `0x80`, and
/// otherwise a leading byte that tells the length, followed by
/// continuation bytes of six bits each.
pub open spec fn utf8_bytes(c: nat) -> Seq<u8> {
    if c < 0x80 {
        seq![c as u8]
    } else if c < 0x800 {
        seq![(0xC0 + c / 0x40) as u8, (0x80 + c % 0x40) as u8]
    } else if c < 0x1_0000 {
        seq![(0xE0 + c / 0x1000) as u8, (0x80 + (c / 0x40) % 0x40) as u8, (0x80 + c % 0x40) as u8]
    } else {
        seq![
            (0xF0 + c / 0x4_0000) as u8,
            (0x80 + (c / 0x1000) % 0x40) as u8,
            (0x80 + (c / 0x40) % 0x40) as u8,
            (0x80 + c % 0x40) as u8,
        ]
    }
}

/// The high surrogate of a code point above the basic plane.
pub open spec fn high_surrogate(c: nat) -> nat {
    (0xD800 + (c - 0x1_0000) / 0x400) as nat
}

/// The low surrogate of a code point above the basic plane.
pub open spec fn low_surrogate(c: nat) -> nat {
    (0xDC00 + (c - 0x1_0000) % 0x400) as nat
}

/// The bytes of a char under the given string representation.
pub open spec fn char_bytes(c: char, repr: StringRepr) -> Seq<u8> {
    match repr.str_encoding {
        StrEncoding::Utf8 => utf8_bytes(c as nat),
        StrEncoding::Utf16 => if (c as nat) < 0x1_0000 {
            fixed_bytes(c as nat, 2, repr.endianness)
        } else {
            fixed_bytes(high_surrogate(c as nat), 2, repr.endianness) + fixed_bytes(
                low_surrogate(c as nat),
                2,
                repr.endianness,
            )
        },
        StrEncoding::Utf32 => fixed_bytes(c as nat, 4, repr.endianness),
    }
}

/// The bytes of a run of chars: those of each char, one after the other.
pub open spec fn str_bytes(chars: Seq<char>, repr: StringRepr) -> Seq<u8>
    decreases chars.len(),
{
    if chars.len() == 0 {
        Seq::empty()
    } else {
        char_bytes(chars[0], repr) + str_bytes(chars.drop_first(), repr)
    }
}

/// What the leading byte of a UTF-8 char says: how many continuation bytes
/// follow, and the bits that it carries itself. A continuation byte, or a
/// byte that announces more than three of them, cannot lead.
pub open spec fn utf8_lead(b: u8) -> Option<(nat, nat)> {
    if b < 0x80 {
        Some((0nat, b as nat))
    } else if b < 0xC0 {
        None
    } else if b < 0xE0 {
        Some((1nat, (b - 0xC0) as nat))
    } else if b < 0xF0 {
        Some((2nat, (b - 0xE0) as nat))
    } else if b < 0xF8 {
        Some((3nat, (b - 0xF0) as nat))
    } else {
        None
    }
}

/// Whether `b` is a UTF-8 continuation byte.
pub open spec fn is_continuation(b: u8) -> bool {
    0x80 <= b < 0xC0
}

/// Takes the continuation bytes `s[j]` to `s[last]` into `acc`, six bits each.
pub open spec fn utf8_cont(s: Seq<u8>, j: nat, last: nat, acc: nat) -> Result<nat, EncodingError>
    decreases last + 1 - j,
{
    if j > last {
        Ok(acc)
    } else if j >= s.len() {
        Err(EncodingError::UnexpectedEnd)
    } else if !is_continuation(s[j as int]) {
        Err(EncodingError::StringError(StringError::InvalidUtf8))
    } else {
        utf8_cont(s, j + 1, last, acc * 0x40 + (s[j as int] - 0x80) as nat)
    }
}

/// The char with code `v`, which took `len` bytes, or the given error where
/// `v` is no Unicode scalar value.
pub open spec fn scalar_or(v: nat, len: nat, error: StringError) -> Result<
    Parsed<char>,
    EncodingError,
> {
    if is_scalar(v) {
        Ok(Parsed { value: v as char, len })
    } else {
        Err(EncodingError::StringError(error))
    }
}

/// The UTF-8 char at the front of `s`.
pub open spec fn utf8_parse(s: Seq<u8>) -> Result<Parsed<char>, EncodingError> {
    if s.len() == 0 {
        Err(EncodingError::UnexpectedEnd)
    } else {
        match utf8_lead(s[0]) {
            None => Err(EncodingError::StringError(StringError::InvalidUtf8)),
            Some((extra, bits)) => match utf8_cont(s, 1, extra, bits) {
                Err(e) => Err(e),
                Ok(v) => scalar_or(v, extra + 1, StringError::InvalidUtf8),
            },
        }
    }
}

/// The UTF-16 char at the front of `s`: one unit outside the surrogates, or
/// a high surrogate followed by a low one.
pub open spec fn utf16_parse(s: Seq<u8>, endianness: Endianness) -> Result<
    Parsed<char>,
    EncodingError,
> {
    match fixed_parse(s, BitWidth::Bit16, endianness) {
        Err(e) => Err(e),
        Ok(first) => if 0xD800 <= first.value <= 0xDBFF {
            match fixed_parse(s.skip(2), BitWidth::Bit16, endianness) {
                Err(e) => Err(e),
                Ok(second) => if 0xDC00 <= second.value <= 0xDFFF {
                    scalar_or(
                        (0x1_0000 + (first.value - 0xD800) * 0x400 + (second.value - 0xDC00)) as nat,
                        4,
                        StringError::InvalidUtf16,
                    )
                } else {
                    Err(EncodingError::StringError(StringError::InvalidUtf16))
                },
            }
        } else if 0xDC00 <= first.value <= 0xDFFF {
            Err(EncodingError::StringError(StringError::InvalidUtf16))
        } else {
            scalar_or(first.value, 2, StringError::InvalidUtf16)
        },
    }
}

/// The UTF-32 char at the front of `s`.
pub open spec fn utf32_parse(s: Seq<u8>, endianness: Endianness) -> Result<
    Parsed<char>,
    EncodingError,
> {
    match fixed_parse(s, BitWidth::Bit32, endianness) {
        Err(e) => Err(e),
        Ok(unit) => scalar_or(unit.value, 4, StringError::InvalidUtf32),
    }
}

/// The char at the front of `s` under the given string representation.
pub open spec fn char_parse(s: Seq<u8>, repr: StringRepr) -> Result<Parsed<char>, EncodingError> {
    match repr.str_encoding {
        StrEncoding::Utf8 => utf8_parse(s),
        StrEncoding::Utf16 => utf16_parse(s, repr.endianness),
        StrEncoding::Utf32 => utf32_parse(s, repr.endianness),
    }
}

/// The first `limit` bytes of `s`, or all of `s` where there is no limit or
/// `s` is shorter.
pub open spec fn within(s: Seq<u8>, limit: Option<usize>) -> Seq<u8> {
    match limit {
        Some(l) => if l <= s.len() {
            s.take(l as int)
        } else {
            s
        },
        None => s,
    }
}

/// The chars that fill exactly the first `budget` bytes of `s`. A char that
/// is cut short by the budget or by the end of `s` is an `UnexpectedEnd`.
pub open spec fn text_parse(s: Seq<u8>, budget: nat, repr: StringRepr) -> Result<
    Seq<char>,
    EncodingError,
>
    decreases budget,
{
    if budget == 0 {
        Ok(Seq::empty())
    } else {
        match char_parse(within(s, Some(saturate(budget))), repr) {
            Err(e) => Err(e),
            Ok(first) => if 1 <= first.len <= budget {
                match text_parse(s.skip(first.len as int), (budget - first.len) as nat, repr) {
                    Err(e) => Err(e),
                    Ok(rest) => Ok(seq![first.value] + rest),
                }
            } else {
                Err(EncodingError::UnexpectedEnd)
            },
        }
    }
}

/// The smaller of a count and `usize::MAX`.
pub open spec fn saturate(n: nat) -> usize {
    if n <= usize::MAX {
        n as usize
    } else {
        usize::MAX
    }
}

/// The bytes of two runs of chars, one after the other, are the bytes of the
/// runs joined.
pub proof fn lemma_str_bytes_concat(a: Seq<char>, b: Seq<char>, repr: StringRepr)
    ensures
        str_bytes(a + b, repr) == str_bytes(a, repr) + str_bytes(b, repr),
    decreases a.len(),
{
    if a.len() == 0 {
        assert(a + b =~= b);
        assert(str_bytes(a, repr) + str_bytes(b, repr) =~= str_bytes(b, repr));
    } else {
        lemma_str_bytes_concat(a.drop_first(), b, repr);
        assert((a + b).drop_first() =~= a.drop_first() + b);
        assert(str_bytes(a + b, repr) =~= str_bytes(a, repr) + str_bytes(b, repr));
    }
}

/// The bytes of a run of chars with one more char at its end.
pub proof fn lemma_str_bytes_push(a: Seq<char>, c: char, repr: StringRepr)
    ensures
        str_bytes(a.push(c), repr) == str_bytes(a, repr) + char_bytes(c, repr),
{
    lemma_str_bytes_concat(a, seq![c], repr);
    assert(a.push(c) =~= a + seq![c]);
    assert(seq![c].drop_first() =~= Seq::<char>::empty());
    assert(str_bytes(seq![c].drop_first(), repr) =~= Seq::<u8>::empty());
    assert(str_bytes(seq![c], repr) =~= char_bytes(c, repr));
}

/// The bytes of a char under the given string representation.
pub fn encode_char(c: char, repr: StringRepr) -> (r: Vec<u8>)
    ensures
        r@ == char_bytes(c, repr),
        1 <= r@.len() <= 4,
{
    let code: u32 = c as u32;
    match repr.str_encoding {
        StrEncoding::Utf8 => {
            let mut out: Vec<u8> = Vec::new();
            if code < 0x80 {
                out.push(code as u8);
            } else if code < 0x800 {
                out.push((0xC0 + code / 0x40) as u8);
                out.push((0x80 + code % 0x40) as u8);
            } else if code < 0x1_0000 {
                out.push((0xE0 + code / 0x1000) as u8);
                out.push((0x80 + (code / 0x40) % 0x40) as u8);
                out.push((0x80 + code % 0x40) as u8);
            } else {
                out.push((0xF0 + code / 0x4_0000) as u8);
                out.push((0x80 + (code / 0x1000) % 0x40) as u8);
                out.push((0x80 + (code / 0x40) % 0x40) as u8);
                out.push((0x80 + code % 0x40) as u8);
            }
            assert(out@ =~= utf8_bytes(c as nat));
            out
        },
        StrEncoding::Utf16 => {
            if code < 0x1_0000 {
                fixed_encode(code as u128, 2, repr.endianness)
            } else {
                let high: u32 = 0xD800 + (code - 0x1_0000) / 0x400;
                let low: u32 = 0xDC00 + (code - 0x1_0000) % 0x400;
                let mut out = fixed_encode(high as u128, 2, repr.endianness);
                let mut second = fixed_encode(low as u128, 2, repr.endianness);
                out.append(&mut second);
                out
            }
        },
        StrEncoding::Utf32 => fixed_encode(code as u128, 4, repr.endianness),
    }
}

/// Whether `more` bytes may be read after `used`, under the limit.
fn allows(limit: Option<usize>, used: usize, more: usize) -> (r: bool)
    ensures
        r == (limit matches Some(l) ==> used + more <= l),
{
    match limit {
        None => true,
        Some(l) => used <= l && more <= l - used,
    }
}

/// The error of malformed UTF-8.
fn invalid_utf8() -> (r: EncodingError)
    ensures
        r == EncodingError::StringError(StringError::InvalidUtf8),
{
    EncodingError::StringError(StringError::InvalidUtf8)
}

/// The error of malformed UTF-16.
fn invalid_utf16() -> (r: EncodingError)
    ensures
        r == EncodingError::StringError(StringError::InvalidUtf16),
{
    EncodingError::StringError(StringError::InvalidUtf16)
}

/// Reads a UTF-8 char, and no byte past the limit.
fn decode_utf8<R: Read>(stream: &mut R, limit: Option<usize>) -> (r: Result<
    (char, usize),
    EncodingError,
>)
    ensures
        reads(
            *old(stream),
            *final(stream),
            r,
            |x: (char, usize)| x.0,
            utf8_parse(within((*old(stream)).remaining(), limit)),
        ),
        r matches Ok(x) ==> 1 <= x.1 <= 4 && utf8_parse(
            within((*old(stream)).remaining(), limit),
        )->Ok_0.len == x.1 && (limit matches Some(l) ==> x.1 <= l),
{
    let ghost s0 = (*old(stream)).remaining();
    let ghost w = within(s0, limit);
    if !allows(limit, 0, 1) {
        return Err(EncodingError::UnexpectedEnd);
    }
    let b0 = match read_one(stream) {
        Ok(b) => b,
        Err(e) => {
            return Err(e);
        },
    };
    assert(w[0] == b0);
    let (extra, bits): (usize, u32) = if b0 < 0x80 {
        (0, b0 as u32)
    } else if b0 < 0xC0 {
        return Err(invalid_utf8());
    } else if b0 < 0xE0 {
        (1, (b0 - 0xC0) as u32)
    } else if b0 < 0xF0 {
        (2, (b0 - 0xE0) as u32)
    } else if b0 < 0xF8 {
        (3, (b0 - 0xF0) as u32)
    } else {
        return Err(invalid_utf8());
    };
    let mut acc: u32 = bits;
    let mut j: usize = 1;
    while j <= extra
        invariant
            s0 == (*old(stream)).remaining(),
            w == within(s0, limit),
            (*stream).reliable() == (*old(stream)).reliable(),
            1 <= j <= extra + 1,
            extra <= 3,
            utf8_lead(w[0]) == Some((extra as nat, bits as nat)),
            j <= s0.len(),
            j <= w.len(),
            limit matches Some(l) ==> j <= l,
            (*stream).remaining() == s0.skip(j as int),
            utf8_cont(w, 1, extra as nat, bits as nat) == utf8_cont(
                w,
                j as nat,
                extra as nat,
                acc as nat,
            ),
            j == 1 ==> acc < 0x80,
            j == 2 ==> acc < 0x2000,
            j == 3 ==> acc < 0x8_0000,
            j == 4 ==> acc < 0x200_0000,
        decreases extra + 1 - j,
    {
        if !allows(limit, j, 1) {
            return Err(EncodingError::UnexpectedEnd);
        }
        let b = match read_one(stream) {
            Ok(b) => b,
            Err(e) => {
                return Err(e);
            },
        };
        proof {
            assert(b == s0[j as int]);
            assert(w[j as int] == b);
            assert(s0.skip(j as int).skip(1) =~= s0.skip(j + 1));
        }
        if b < 0x80 || b >= 0xC0 {
            return Err(invalid_utf8());
        }
        acc = acc * 0x40 + (b - 0x80) as u32;
        j = j + 1;
    }
    match char::from_u32(acc) {
        Some(c) => Ok((c, extra + 1)),
        None => Err(invalid_utf8()),
    }
}

/// Reads a UTF-16 char, and no byte past the limit.
fn decode_utf16<R: Read>(stream: &mut R, endianness: Endianness, limit: Option<usize>) -> (r:
    Result<(char, usize), EncodingError>)
    ensures
        reads(
            *old(stream),
            *final(stream),
            r,
            |x: (char, usize)| x.0,
            utf16_parse(within((*old(stream)).remaining(), limit), endianness),
        ),
        r matches Ok(x) ==> 1 <= x.1 <= 4 && utf16_parse(
            within((*old(stream)).remaining(), limit),
            endianness,
        )->Ok_0.len == x.1 && (limit matches Some(l) ==> x.1 <= l),
{
    let ghost s0 = (*old(stream)).remaining();
    let ghost w = within(s0, limit);
    if !allows(limit, 0, 2) {
        return Err(EncodingError::UnexpectedEnd);
    }
    let first = match read_fixed(stream, BitWidth::Bit16, endianness) {
        Ok(unit) => unit,
        Err(e) => {
            return Err(e);
        },
    };
    proof {
        crate::wire::arith::lemma_pow2_values();
        assert(w.take(2) =~= s0.take(2));
    }
    if 0xD800 <= first && first <= 0xDBFF {
        if !allows(limit, 2, 2) {
            return Err(EncodingError::UnexpectedEnd);
        }
        let second = match read_fixed(stream, BitWidth::Bit16, endianness) {
            Ok(unit) => unit,
            Err(e) => {
                return Err(e);
            },
        };
        proof {
            assert(w.skip(2).take(2) =~= s0.skip(2).take(2));
            assert(s0.skip(2).skip(2) =~= s0.skip(4));
        }
        if !(0xDC00 <= second && second <= 0xDFFF) {
            return Err(invalid_utf16());
        }
        let code: u32 = 0x1_0000 + ((first - 0xD800) as u32) * 0x400 + (second - 0xDC00) as u32;
        match char::from_u32(code) {
            Some(c) => Ok((c, 4)),
            None => Err(invalid_utf16()),
        }
    } else if 0xDC00 <= first && first <= 0xDFFF {
        Err(invalid_utf16())
    } else {
        match char::from_u32(first as u32) {
            Some(c) => Ok((c, 2)),
            None => Err(invalid_utf16()),
        }
    }
}

/// Reads a UTF-32 char, and no byte past the limit.
fn decode_utf32<R: Read>(stream: &mut R, endianness: Endianness, limit: Option<usize>) -> (r:
    Result<(char, usize), EncodingError>)
    ensures
        reads(
            *old(stream),
            *final(stream),
            r,
            |x: (char, usize)| x.0,
            utf32_parse(within((*old(stream)).remaining(), limit), endianness),
        ),
        r matches Ok(x) ==> 1 <= x.1 <= 4 && utf32_parse(
            within((*old(stream)).remaining(), limit),
            endianness,
        )->Ok_0.len == x.1 && (limit matches Some(l) ==> x.1 <= l),
{
    let ghost s0 = (*old(stream)).remaining();
    let ghost w = within(s0, limit);
    if !allows(limit, 0, 4) {
        return Err(EncodingError::UnexpectedEnd);
    }
    let unit = match read_fixed(stream, BitWidth::Bit32, endianness) {
        Ok(unit) => unit,
        Err(e) => {
            return Err(e);
        },
    };
    proof {
        crate::wire::arith::lemma_pow2_values();
        assert(w.take(4) =~= s0.take(4));
    }
    match char::from_u32(unit as u32) {
        Some(c) => Ok((c, 4)),
        None => Err(EncodingError::StringError(StringError::InvalidUtf32)),
    }
}

/// Reads a char under the given string representation, and no byte past the
/// limit. Returns the char and the number of bytes that it took.
pub fn decode_char<R: Read>(stream: &mut R, repr: StringRepr, limit: Option<usize>) -> (r: Result<
    (char, usize),
    EncodingError,
>)
    ensures
        reads(
            *old(stream),
            *final(stream),
            r,
            |x: (char, usize)| x.0,
            char_parse(within((*old(stream)).remaining(), limit), repr),
        ),
        r matches Ok(x) ==> 1 <= x.1 <= 4 && char_parse(
            within((*old(stream)).remaining(), limit),
            repr,
        )->Ok_0.len == x.1 && (limit matches Some(l) ==> x.1 <= l),
{
    match repr.str_encoding {
        StrEncoding::Utf8 => decode_utf8(stream, limit),
        StrEncoding::Utf16 => decode_utf16(stream, repr.endianness, limit),
        StrEncoding::Utf32 => decode_utf32(stream, repr.endianness, limit),
    }
}

} // verus!
