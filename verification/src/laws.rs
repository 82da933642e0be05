//! What holds of the codec as a whole: a value that was written reads back
//! as itself, whatever follows it on the wire.

use vstd::prelude::*;
use vstd::arithmetic::power2::pow2;
use vstd::arithmetic::power2::lemma_pow2_adds;
use vstd::arithmetic::power2::lemma_pow2_pos;
use crate::error::EncodingError;
use crate::opaque::int_max;
use crate::opaque::int_min;
use crate::settings::BitWidth;
use crate::settings::Endianness;
use crate::settings::NumEncoding;
use crate::wire::arith::lemma_pow2_split;
use crate::wire::arith::lemma_pow2_values;
use crate::wire::fixed::fixed_bytes;
use crate::wire::fixed::fixed_value;
use crate::wire::fixed::lemma_fixed_roundtrip;
use crate::wire::fixed::lemma_le_bytes_of_value;
use crate::wire::fixed::lemma_twos_roundtrip;
use crate::wire::fixed::twos;
use crate::wire::number::fixed_parse;
use crate::wire::number::signed_bytes;
use crate::wire::number::signed_parse;
use crate::wire::number::uleb_parse;
use crate::wire::number::unsigned_bytes;
use crate::wire::number::unsigned_parse;
use crate::wire::number::Parsed;
use crate::wire::roundtrip::lemma_sleb128_shape;
use crate::wire::roundtrip::lemma_sleb_scan;
use crate::wire::roundtrip::lemma_uleb_scan;
use crate::wire::varint::leb_scan;
use crate::wire::varint::lemma_zigzag_roundtrip;
use crate::wire::varint::sleb128;
use crate::wire::varint::sleb_value;
use crate::wire::varint::uleb128;
use crate::wire::varint::zigzag;
use crate::wire::varint::Scan;
use crate::codec::delivered;
use crate::codec::Encode;
use crate::codec::Image;
use crate::io::Write;
use crate::encoder::borrow::signed_at;
use crate::encoder::borrow::unsigned_at;
use crate::context::State;
use crate::encoder::read::bool_parse;
use crate::encoder::read::isize_parse;
use crate::encoder::read::narrowed_variant;
use crate::encoder::read::size_parse;
use crate::encoder::read::str_parse;
use crate::encoder::read::variant_parse;
use crate::encoder::write::bool_image;
use crate::encoder::write::isize_image;
use crate::encoder::write::size_image;
use crate::encoder::write::str_image;
use crate::encoder::write::variant_image;
use crate::error::FlattenError;
use crate::opaque::lemma_int_bounds;
use crate::opaque::Opaque;
use crate::settings::StrEncoding;
use crate::settings::StringRepr;
use crate::wire::fixed::lemma_le_bytes_len;
use crate::wire::text::char_bytes;
use crate::wire::text::char_parse;
use crate::wire::text::high_surrogate;
use crate::wire::text::is_scalar;
use crate::wire::text::low_surrogate;
use crate::wire::text::saturate;
use crate::wire::text::str_bytes;
use crate::wire::text::text_parse;
use crate::wire::text::utf8_bytes;
use crate::wire::text::utf8_cont;
use crate::wire::text::utf8_lead;
use crate::wire::text::utf8_parse;
use crate::wire::text::within;

verus! {

/// The fixed bytes of a number that fits the width read back as the number.
pub proof fn lemma_fixed_parse(v: nat, width: BitWidth, endianness: Endianness, rest: Seq<u8>)
    requires
        v < pow2(width.spec_bits()),
    ensures
        fixed_parse(fixed_bytes(v, width.spec_bytes(), endianness) + rest, width, endianness)
            == Ok::<Parsed<nat>, EncodingError>(Parsed { value: v, len: width.spec_bytes() }),
{
    let n = width.spec_bytes();
    let bytes = fixed_bytes(v, n, endianness);
    assert(8 * n == width.spec_bits());
    lemma_fixed_roundtrip(v, n, endianness);
    assert((bytes + rest).take(n as int) =~= bytes);
}

/// **Fixed bytes are the only bytes of their number.** Writing out the
/// number that some bytes stand for, at their length and in their byte
/// order, gives those bytes again.
pub proof fn law_fixed_is_canonical(s: Seq<u8>, endianness: Endianness)
    ensures
        fixed_bytes(fixed_value(s, endianness), s.len(), endianness) == s,
{
    match endianness {
        Endianness::LittleEndian => {
            lemma_le_bytes_of_value(s);
        },
        Endianness::BigEndian => {
            lemma_le_bytes_of_value(s.reverse());
            assert(s.reverse().reverse() =~= s);
        },
    }
}

/// The variable-length bytes of a number that fits the width read back as
/// the number.
pub proof fn lemma_uleb_parse(v: nat, width: BitWidth, rest: Seq<u8>)
    requires
        v < pow2(width.spec_bits()),
    ensures
        uleb_parse(uleb128(v) + rest, width) == Ok::<Parsed<nat>, EncodingError>(
            Parsed { value: v, len: uleb128(v).len() },
        ),
{
    let s = uleb128(v) + rest;
    assert(s.subrange(0, uleb128(v).len() as int) =~= uleb128(v));
    lemma_uleb_scan(s, width.spec_bits(), 0, 0, v);
    lemma_pow2_values();
    assert(v * pow2(0) == v);
    vstd::arithmetic::div_mod::lemma_small_mod(v, pow2(width.spec_bits()));
}

/// **Unsigned integers read back as written.** For every width, encoding
/// and byte order, the bytes of a number that fits the width, followed by
/// anything, are read as that number and as taking just those bytes.
pub proof fn law_unsigned_roundtrip(
    v: nat,
    width: BitWidth,
    num_encoding: NumEncoding,
    endianness: Endianness,
    rest: Seq<u8>,
)
    requires
        v <= int_max(false, width.spec_bits()),
    ensures
        unsigned_parse(
            unsigned_bytes(v, width, num_encoding, endianness) + rest,
            width,
            num_encoding,
            endianness,
        ) == Ok::<Parsed<nat>, EncodingError>(
            Parsed { value: v, len: unsigned_bytes(v, width, num_encoding, endianness).len() },
        ),
{
    match num_encoding {
        NumEncoding::Fixed => {
            lemma_fixed_parse(v, width, endianness, rest);
            lemma_fixed_roundtrip(v, width.spec_bytes(), endianness);
        },
        _ => {
            lemma_uleb_parse(v, width, rest);
        },
    }
}

/// The signed variable-length bytes of a number in the signed range of the
/// width read back as the number.
pub proof fn lemma_sleb_parse(v: int, width: BitWidth, rest: Seq<u8>)
    requires
        int_min(true, width.spec_bits()) <= v <= int_max(true, width.spec_bits()),
    ensures
        signed_parse(
            sleb128(v) + rest,
            width,
            NumEncoding::Leb128,
            Endianness::LittleEndian,
        ) == Ok::<Parsed<int>, EncodingError>(Parsed { value: v, len: sleb128(v).len() }),
{
    let bits = width.spec_bits();
    let form = sleb128(v);
    let m = form.len();
    let s = form + rest;
    assert(s.subrange(0, m as int) =~= form);
    lemma_sleb_scan(s, bits, 0, 0, v);
    lemma_sleb128_shape(v);
    lemma_pow2_values();
    lemma_pow2_pos(7 * m);
    let big = pow2(7 * m) as int;
    let raw = v % big;
    let one = pow2(0) as int;
    assert(raw * one == raw) by (nonlinear_arith)
        requires
            one == 1,
    ;
    let scan = Scan { raw: raw as nat, len: m };
    assert(leb_scan(s, bits, 0, 0) == Ok::<Scan, EncodingError>(scan));
    assert(s[m - 1] == form.last());
    lemma_pow2_adds(1, (7 * m - 1) as nat);
    if v >= 0 {
        vstd::arithmetic::div_mod::lemma_small_mod(v as nat, pow2(7 * m));
    } else {
        vstd::arithmetic::div_mod::lemma_small_mod((v + big) as nat, pow2(7 * m));
        vstd::arithmetic::div_mod::lemma_mod_add_multiples_vanish(v, big);
    }
    if 7 * m < bits {
        assert(sleb_value(scan, s[m - 1], bits) == v);
    } else {
        let small = pow2(bits) as int;
        lemma_pow2_pos(bits);
        lemma_pow2_pos((7 * m - bits) as nat);
        lemma_pow2_adds(bits, (7 * m - bits) as nat);
        vstd::arithmetic::div_mod::lemma_mod_mod(v, small, pow2((7 * m - bits) as nat) as int);
        lemma_twos_roundtrip(v, bits);
        assert(raw % small == twos(v, bits));
        assert(sleb_value(scan, s[m - 1], bits) == v);
    }
}

/// **Signed integers read back as written.** For every width, encoding and
/// byte order, the bytes of a number in the signed range of the width,
/// followed by anything, are read as that number and as taking just those
/// bytes.
pub proof fn law_signed_roundtrip(
    v: int,
    width: BitWidth,
    num_encoding: NumEncoding,
    endianness: Endianness,
    rest: Seq<u8>,
)
    requires
        int_min(true, width.spec_bits()) <= v <= int_max(true, width.spec_bits()),
    ensures
        signed_parse(
            signed_bytes(v, width, num_encoding, endianness) + rest,
            width,
            num_encoding,
            endianness,
        ) == Ok::<Parsed<int>, EncodingError>(
            Parsed { value: v, len: signed_bytes(v, width, num_encoding, endianness).len() },
        ),
{
    let bits = width.spec_bits();
    lemma_twos_roundtrip(v, bits);
    match num_encoding {
        NumEncoding::Fixed => {
            lemma_fixed_parse(twos(v, bits), width, endianness, rest);
            lemma_fixed_roundtrip(twos(v, bits), width.spec_bytes(), endianness);
        },
        NumEncoding::Leb128 => {
            lemma_sleb_parse(v, width, rest);
        },
        NumEncoding::ProtobufWasteful => {
            lemma_uleb_parse(twos(v, bits), width, rest);
        },
        NumEncoding::ProtobufZigzag => {
            lemma_zigzag_roundtrip(v, bits);
            lemma_uleb_parse(zigzag(v), width, rest);
        },
    }
}

/// A code point of two UTF-8 bytes reads back.
proof fn lemma_utf8_two(v: nat, rest: Seq<u8>)
    requires
        0x80 <= v < 0x800,
    ensures
        utf8_parse(utf8_bytes(v) + rest) == Ok::<Parsed<char>, EncodingError>(
            Parsed { value: v as char, len: 2 },
        ),
{
    let b0 = (0xC0 + v / 0x40) as u8;
    let b1 = (0x80 + v % 0x40) as u8;
    let s = utf8_bytes(v) + rest;
    assert(utf8_bytes(v) =~= seq![b0, b1]);
    assert(s[0] == b0 && s[1] == b1);
    assert(utf8_lead(b0) == Some((1nat, v / 0x40)));
    let a1 = (v / 0x40) * 0x40 + (b1 - 0x80) as nat;
    assert(a1 == v);
    assert(utf8_cont(s, 2, 1, a1) == Ok::<nat, EncodingError>(a1));
    assert(utf8_cont(s, 1, 1, v / 0x40) == utf8_cont(s, 2, 1, a1));
}

/// A code point of three UTF-8 bytes reads back.
proof fn lemma_utf8_three(v: nat, rest: Seq<u8>)
    requires
        0x800 <= v < 0x1_0000,
        is_scalar(v),
    ensures
        utf8_parse(utf8_bytes(v) + rest) == Ok::<Parsed<char>, EncodingError>(
            Parsed { value: v as char, len: 3 },
        ),
{
    let b0 = (0xE0 + v / 0x1000) as u8;
    let b1 = (0x80 + (v / 0x40) % 0x40) as u8;
    let b2 = (0x80 + v % 0x40) as u8;
    let s = utf8_bytes(v) + rest;
    assert(utf8_bytes(v) =~= seq![b0, b1, b2]);
    assert(s[0] == b0 && s[1] == b1 && s[2] == b2);
    assert(utf8_lead(b0) == Some((2nat, v / 0x1000)));
    let a1 = (v / 0x1000) * 0x40 + (b1 - 0x80) as nat;
    assert(a1 == v / 0x40);
    let a2 = a1 * 0x40 + (b2 - 0x80) as nat;
    assert(a2 == v);
    assert(utf8_cont(s, 3, 2, a2) == Ok::<nat, EncodingError>(a2));
    assert(utf8_cont(s, 2, 2, a1) == utf8_cont(s, 3, 2, a2));
    assert(utf8_cont(s, 1, 2, v / 0x1000) == utf8_cont(s, 2, 2, a1));
}

/// A code point of four UTF-8 bytes reads back.
proof fn lemma_utf8_four(v: nat, rest: Seq<u8>)
    requires
        0x1_0000 <= v <= 0x10_FFFF,
    ensures
        utf8_parse(utf8_bytes(v) + rest) == Ok::<Parsed<char>, EncodingError>(
            Parsed { value: v as char, len: 4 },
        ),
{
    let b0 = (0xF0 + v / 0x4_0000) as u8;
    let b1 = (0x80 + (v / 0x1000) % 0x40) as u8;
    let b2 = (0x80 + (v / 0x40) % 0x40) as u8;
    let b3 = (0x80 + v % 0x40) as u8;
    let s = utf8_bytes(v) + rest;
    assert(utf8_bytes(v) =~= seq![b0, b1, b2, b3]);
    assert(s[0] == b0 && s[1] == b1 && s[2] == b2 && s[3] == b3);
    assert(utf8_lead(b0) == Some((3nat, v / 0x4_0000)));
    let a1 = (v / 0x4_0000) * 0x40 + (b1 - 0x80) as nat;
    assert(a1 == v / 0x1000);
    let a2 = a1 * 0x40 + (b2 - 0x80) as nat;
    assert(a2 == v / 0x40);
    let a3 = a2 * 0x40 + (b3 - 0x80) as nat;
    assert(a3 == v);
    assert(utf8_cont(s, 4, 3, a3) == Ok::<nat, EncodingError>(a3));
    assert(utf8_cont(s, 3, 3, a2) == utf8_cont(s, 4, 3, a3));
    assert(utf8_cont(s, 2, 3, a1) == utf8_cont(s, 3, 3, a2));
    assert(utf8_cont(s, 1, 3, v / 0x4_0000) == utf8_cont(s, 2, 3, a1));
}

/// The UTF-8 bytes of a char read back as the char.
pub proof fn lemma_utf8_roundtrip(c: char, rest: Seq<u8>)
    ensures
        utf8_parse(utf8_bytes(c as nat) + rest) == Ok::<Parsed<char>, EncodingError>(
            Parsed { value: c, len: utf8_bytes(c as nat).len() },
        ),
        1 <= utf8_bytes(c as nat).len() <= 4,
{
    let v = c as nat;
    assert(is_scalar(v));
    assert(v as char == c);
    if v < 0x80 {
        let s = utf8_bytes(v) + rest;
        assert(s[0] == v as u8);
        assert(utf8_lead(s[0]) == Some((0nat, v)));
        assert(utf8_cont(s, 1, 0, v) == Ok::<nat, EncodingError>(v));
    } else if v < 0x800 {
        lemma_utf8_two(v, rest);
    } else if v < 0x1_0000 {
        lemma_utf8_three(v, rest);
    } else {
        lemma_utf8_four(v, rest);
    }
}

/// **Chars read back as written.** In each of the three string encodings and
/// either byte order, the bytes of a char, followed by anything, are read as
/// that char and as taking just those bytes, which are at least one and at
/// most four.
pub proof fn law_char_roundtrip(c: char, repr: StringRepr, rest: Seq<u8>)
    ensures
        char_parse(char_bytes(c, repr) + rest, repr) == Ok::<Parsed<char>, EncodingError>(
            Parsed { value: c, len: char_bytes(c, repr).len() },
        ),
        1 <= char_bytes(c, repr).len() <= 4,
{
    let v = c as nat;
    let e = repr.endianness;
    lemma_pow2_values();
    assert(is_scalar(v));
    assert(v as char == c);
    match repr.str_encoding {
        StrEncoding::Utf8 => {
            lemma_utf8_roundtrip(c, rest);
        },
        StrEncoding::Utf16 => {
            if v < 0x1_0000 {
                lemma_fixed_parse(v, BitWidth::Bit16, e, rest);
                lemma_le_bytes_len(v, 2);
            } else {
                let hi = high_surrogate(v);
                let lo = low_surrogate(v);
                let first = fixed_bytes(hi, 2, e);
                let second = fixed_bytes(lo, 2, e);
                lemma_le_bytes_len(hi, 2);
                lemma_le_bytes_len(lo, 2);
                lemma_fixed_parse(hi, BitWidth::Bit16, e, second + rest);
                lemma_fixed_parse(lo, BitWidth::Bit16, e, rest);
                let s = first + second + rest;
                assert(s =~= first + (second + rest));
                assert(s.skip(2) =~= second + rest);
                assert(0x1_0000 + (hi - 0xD800) * 0x400 + (lo - 0xDC00) == v);
            }
        },
        StrEncoding::Utf32 => {
            lemma_fixed_parse(v, BitWidth::Bit32, e, rest);
            lemma_le_bytes_len(v, 4);
        },
    }
}

/// **Runs of chars read back as written.** The bytes of a run of chars,
/// followed by anything, are read as that run when the budget is the length
/// of those bytes.
pub proof fn law_text_roundtrip(chars: Seq<char>, repr: StringRepr, rest: Seq<u8>)
    requires
        str_bytes(chars, repr).len() <= usize::MAX,
    ensures
        text_parse(str_bytes(chars, repr) + rest, str_bytes(chars, repr).len(), repr) == Ok::<
            Seq<char>,
            EncodingError,
        >(chars),
    decreases chars.len(),
{
    let body = str_bytes(chars, repr);
    let s = body + rest;
    if chars.len() == 0 {
        assert(chars =~= Seq::<char>::empty());
    } else {
        let first = char_bytes(chars[0], repr);
        let tail = chars.drop_first();
        let after = str_bytes(tail, repr);
        law_char_roundtrip(chars[0], repr, after);
        law_text_roundtrip(tail, repr, rest);
        assert(within(s, Some(saturate(body.len()))) =~= first + after);
        assert(s.skip(first.len() as int) =~= after + rest);
        assert(seq![chars[0]] + tail =~= chars);
    }
}

/// **Sizes read back as written.** Wherever a size can be written under a
/// context, what was written for it, followed by anything, is read under the
/// same context as that size and as taking just those bytes. With the size
/// channel armed there are no such bytes.
pub proof fn law_size_roundtrip(ctxt: State, value: usize, rest: Seq<u8>)
    requires
        size_image(ctxt, value) is Ok,
    ensures
        size_parse(ctxt, size_image(ctxt, value)->Ok_0 + rest) == Ok::<
            Parsed<usize>,
            EncodingError,
        >(Parsed { value, len: size_image(ctxt, value)->Ok_0.len() }),
{
    let repr = ctxt.settings.size_repr;
    if ctxt.size_flatten is None {
        lemma_int_bounds();
        law_unsigned_roundtrip(value as nat, repr.width, repr.num_encoding, repr.endianness, rest);
    }
}

/// **Signed sizes read back as written**, wherever they can be written.
pub proof fn law_isize_roundtrip(ctxt: State, value: isize, rest: Seq<u8>)
    requires
        isize_image(ctxt, value) is Ok,
    ensures
        isize_parse(ctxt, isize_image(ctxt, value)->Ok_0 + rest) == Ok::<
            Parsed<isize>,
            EncodingError,
        >(Parsed { value, len: isize_image(ctxt, value)->Ok_0.len() }),
{
    let repr = ctxt.settings.size_repr;
    lemma_int_bounds();
    law_signed_roundtrip(value as int, repr.width, repr.num_encoding, repr.endianness, rest);
}

/// **Variants read back as written.** Wherever a variant can be written
/// under a context, what was written for it, followed by anything, is read
/// under the same context, into any integer type of its sign that it fits,
/// as the same number and as taking just those bytes. With the variant
/// channel armed there are no such bytes.
pub proof fn law_variant_roundtrip(ctxt: State,
    value: Opaque,
    target: BitWidth,
    rest: Seq<u8>,
)
    requires
        variant_image(ctxt, value) is Ok,
        value.fits(value.spec_signed(), target),
    ensures
        narrowed_variant(
            ctxt,
            variant_image(ctxt, value)->Ok_0 + rest,
            value.spec_signed(),
            target,
        ) == Ok::<Parsed<int>, EncodingError>(
            Parsed { value: value.spec_value(), len: variant_image(ctxt, value)->Ok_0.len() },
        ),
{
    let repr = ctxt.settings.variant_repr;
    lemma_int_bounds();
    if ctxt.variant_flatten is None {
        if value.spec_signed() {
            law_signed_roundtrip(
                value.spec_value(),
                repr.width,
                repr.num_encoding,
                repr.endianness,
                rest,
            );
        } else {
            law_unsigned_roundtrip(
                value.spec_value() as nat,
                repr.width,
                repr.num_encoding,
                repr.endianness,
                rest,
            );
        }
    }
}

/// **Booleans read back as written**, wherever they can be written.
pub proof fn law_bool_roundtrip(ctxt: State, value: bool, rest: Seq<u8>)
    requires
        bool_image(ctxt, value) is Ok,
    ensures
        bool_parse(ctxt, bool_image(ctxt, value)->Ok_0 + rest) == Ok::<
            Parsed<bool>,
            EncodingError,
        >(Parsed { value, len: bool_image(ctxt, value)->Ok_0.len() }),
{
}

/// **Strings read back as written.** Wherever a string can be written under
/// a context, what was written for it, followed by anything, is read under
/// the same context as that string and as taking just those bytes.
pub proof fn law_str_roundtrip(ctxt: State, chars: Seq<char>, rest: Seq<u8>)
    requires
        str_image(ctxt, chars) is Ok,
    ensures
        str_parse(ctxt, str_image(ctxt, chars)->Ok_0 + rest) == Ok::<
            Parsed<Seq<char>>,
            EncodingError,
        >(Parsed { value: chars, len: str_image(ctxt, chars)->Ok_0.len() }),
{
    let repr = ctxt.settings.string_repr;
    let body = str_bytes(chars, repr);
    let size = body.len() as usize;
    let prefix = size_image(ctxt, size)->Ok_0;
    law_size_roundtrip(ctxt, size, body + rest);
    law_text_roundtrip(chars, repr, rest);
    assert(prefix + body + rest =~= prefix + (body + rest));
    assert((prefix + body + rest).skip(prefix.len() as int) =~= body + rest);
}

/// **An armed channel takes the place of the bytes.** Writing the value that
/// a channel holds calls for no bytes at all.
pub proof fn law_flatten_writes_nothing(ctxt: State)
    ensures
        ctxt.bool_flatten matches Some(b) ==> bool_image(ctxt, b) == Ok::<Seq<u8>, EncodingError>(
            Seq::empty(),
        ),
        ctxt.size_flatten matches Some(n) ==> size_image(ctxt, n) == Ok::<Seq<u8>, EncodingError>(
            Seq::empty(),
        ),
        ctxt.variant_flatten matches Some(v) ==> variant_image(ctxt, v) == Ok::<
            Seq<u8>,
            EncodingError,
        >(Seq::empty()),
{
}

/// **An armed channel is what is read.** A read of the kind of an armed
/// channel gives what the channel holds and takes no byte, whatever the
/// stream holds.
pub proof fn law_flatten_reads_nothing(ctxt: State, s: Seq<u8>, signed: bool)
    ensures
        ctxt.bool_flatten matches Some(b) ==> bool_parse(ctxt, s) == Ok::<
            Parsed<bool>,
            EncodingError,
        >(Parsed { value: b, len: 0 }),
        ctxt.size_flatten matches Some(n) ==> size_parse(ctxt, s) == Ok::<
            Parsed<usize>,
            EncodingError,
        >(Parsed { value: n, len: 0 }),
        ctxt.variant_flatten matches Some(v) ==> variant_parse(ctxt, s, signed) == Ok::<
            Parsed<Opaque>,
            EncodingError,
        >(Parsed { value: v, len: 0 }),
{
}

/// **A value that disagrees with an armed channel is a mismatch.** Writing
/// anything but what the channel holds fails with the mismatch error of the
/// channel's kind, which names both values.
pub proof fn law_flatten_mismatch(ctxt: State, b: bool, n: usize, v: Opaque)
    ensures
        ctxt.bool_flatten matches Some(armed) ==> (armed != b ==> bool_image(ctxt, b) == Err::<
            Seq<u8>,
            EncodingError,
        >(EncodingError::FlattenError(FlattenError::BoolMismatch { expected: armed, got: b }))),
        ctxt.size_flatten matches Some(armed) ==> (armed != n ==> size_image(ctxt, n) == Err::<
            Seq<u8>,
            EncodingError,
        >(EncodingError::FlattenError(FlattenError::LenMismatch { expected: armed, got: n }))),
        ctxt.variant_flatten matches Some(armed) ==> (armed.spec_value() != v.spec_value()
            ==> variant_image(ctxt, v) == Err::<Seq<u8>, EncodingError>(
            EncodingError::FlattenError(FlattenError::VariantMismatch { expected: armed, got: v }),
        )),
{
}

/// **Emptying a channel leaves the settings alone**, and the user data and
/// the other channels with them.
pub proof fn law_channels_leave_settings(ctxt: State)
    ensures
        ctxt.without_bool().settings == ctxt.settings,
        ctxt.without_size().settings == ctxt.settings,
        ctxt.without_variant().settings == ctxt.settings,
        ctxt.without_bool().bool_flatten is None,
        ctxt.without_size().size_flatten is None,
        ctxt.without_variant().variant_flatten is None,
{
}

/// **No size above the maximum is written.** With no size channel armed, a
/// size above `max_size` is a `MaxSizeExceeded` that names both.
pub proof fn law_max_size_on_write(ctxt: State, value: usize)
    requires
        ctxt.size_flatten is None,
        value > ctxt.settings.size_repr.max_size,
    ensures
        size_image(ctxt, value) == Err::<Seq<u8>, EncodingError>(
            EncodingError::MaxSizeExceeded {
                max: ctxt.settings.size_repr.max_size,
                requested: value,
            },
        ),
{
}

/// **No size above the maximum is read.** With no size channel armed, bytes
/// that stand for a size above `max_size` are a `MaxSizeExceeded` that names
/// both.
pub proof fn law_max_size_on_read(ctxt: State, value: usize, rest: Seq<u8>)
    requires
        ctxt.size_flatten is None,
        value > ctxt.settings.size_repr.max_size,
        value <= int_max(false, ctxt.settings.size_repr.width.spec_bits()),
    ensures
        size_parse(
            ctxt,
            unsigned_bytes(
                value as nat,
                ctxt.settings.size_repr.width,
                ctxt.settings.size_repr.num_encoding,
                ctxt.settings.size_repr.endianness,
            ) + rest,
        ) == Err::<Parsed<usize>, EncodingError>(
            EncodingError::MaxSizeExceeded {
                max: ctxt.settings.size_repr.max_size,
                requested: value,
            },
        ),
{
    let repr = ctxt.settings.size_repr;
    law_unsigned_roundtrip(value as nat, repr.width, repr.num_encoding, repr.endianness, rest);
}

/// **Encoding is a function of the value and the state.** The same value
/// under the same settings and channels calls for the same bytes and leaves
/// the same state.
pub proof fn law_encoding_is_deterministic<T: Encode>(x: T, y: T, a: State, b: State)
    requires
        x == y,
        a == b,
    ensures
        x.image(a) == y.image(b),
{
}

/// **Two encodes of one value agree.** Where one value is encoded twice
/// under one context, to two writers that hold the same bytes and have the
/// same known capacity, the two results are the same, and after a success
/// the two writers hold the same bytes. A value that calls for an error is
/// taken on writers that take everything: on others the stream may fail
/// before the error is met.
pub proof fn law_encodes_agree<W: Write>(
    image: Result<Image, EncodingError>,
    first: W,
    first_after: W,
    first_result: Result<(), EncodingError>,
    second: W,
    second_after: W,
    second_result: Result<(), EncodingError>,
)
    requires
        delivered(first, first_after, first_result, image),
        delivered(second, second_after, second_result, image),
        first.written() == second.written(),
        first.capacity() == second.capacity(),
        !(first.capacity() is Unknown),
        image is Err ==> first.capacity() is Unlimited,
    ensures
        first_result == second_result,
        first_result is Ok ==> first_after.written() == second_after.written(),
        first_result is Ok ==> first_after.capacity() == second_after.capacity(),
{
    if first_result is Ok && second_result is Ok {
        assert(first_result->Ok_0 == second_result->Ok_0);
    }
}

/// **What is referenced in place is what a read would give.** Of some
/// bytes that hold fixed-width numbers one after the other, the `i`-th
/// number as it is seen in place is the number that a fixed read of that
/// width and byte order gives at its offset, unsigned or signed.
pub proof fn law_borrowed_is_decoded(s: Seq<u8>, width: BitWidth, i: int, endianness: Endianness)
    requires
        0 <= i,
        width.spec_bytes() * (i + 1) <= s.len(),
    ensures
        fixed_parse(s.skip(width.spec_bytes() * i), width, endianness) == Ok::<
            Parsed<nat>,
            EncodingError,
        >(
            Parsed {
                value: unsigned_at(s, width.spec_bytes(), i, endianness),
                len: width.spec_bytes(),
            },
        ),
        signed_parse(s.skip(width.spec_bytes() * i), width, NumEncoding::Fixed, endianness)
            == Ok::<Parsed<int>, EncodingError>(
            Parsed {
                value: signed_at(s, width.spec_bytes(), i, endianness),
                len: width.spec_bytes(),
            },
        ),
{
    let k = width.spec_bytes();
    assert(k * (i + 1) == k * i + k) by (nonlinear_arith);
    assert(k * i >= 0) by (nonlinear_arith)
        requires
            k >= 0,
            i >= 0,
    ;
    assert(s.skip(k * i).take(k as int) =~= s.subrange(k * i, k * i + k));
    assert(8 * k == width.spec_bits());
}

/// The signed variable-length form of minus a power of two takes one byte
/// for every seven bits of the exponent, and one more.
pub proof fn lemma_sleb128_of_negative_power(e: nat)
    ensures
        sleb128(-(pow2(e) as int)).len() == e / 7 + 1,
    decreases e,
{
    lemma_pow2_values();
    let v = -(pow2(e) as int);
    if e < 7 {
        lemma_pow2_split(e, 6);
        lemma_pow2_pos(e);
    } else {
        lemma_pow2_split(7, e);
        lemma_pow2_pos((e - 7) as nat);
        let d = pow2((e - 7) as nat) as int;
        assert(v == 128 * (-d));
        assert(v / 128 == -d) by (nonlinear_arith)
            requires
                v == 128 * (-d),
        ;
        lemma_sleb128_of_negative_power((e - 7) as nat);
        assert(sleb128(v) =~= seq![(v % 128 + 128) as u8] + sleb128(v / 128));
    }
}

/// **The least 128-bit number takes nineteen bytes** in the signed
/// variable-length encoding.
pub proof fn law_leb128_of_least_i128()
    ensures
        sleb128(i128::MIN as int).len() == 19,
{
    lemma_pow2_values();
    lemma_sleb128_of_negative_power(127);
}

/// A run of bytes that all announce another byte, as long as the type is
/// wide, is no variable-length integer.
pub proof fn lemma_run_of_continuations(s: Seq<u8>, bits: nat, i: nat, acc: nat)
    requires
        bits >= 1,
        7 * s.len() >= bits,
        forall|j: int| i <= j < s.len() && 7 * j < bits ==> #[trigger] s[j] >= 128,
    ensures
        leb_scan(s, bits, i, acc) == Err::<Scan, EncodingError>(EncodingError::VarIntError),
    decreases s.len() - i,
{
    if 7 * i < bits {
        assert(i < s.len());
        lemma_run_of_continuations(s, bits, i + 1, acc + (s[i as int] % 128) as nat * pow2(7 * i));
    }
}

/// **Twenty bytes that all announce another byte are no 128-bit number**,
/// and neither are nineteen: the scan gives up with `VarIntError` once the
/// bytes read reach the width of the type.
pub proof fn law_overlong_varint(s: Seq<u8>, width: BitWidth)
    requires
        7 * s.len() >= width.spec_bits(),
        forall|j: int| 0 <= j < s.len() ==> #[trigger] s[j] >= 128,
    ensures
        uleb_parse(s, width) == Err::<Parsed<nat>, EncodingError>(EncodingError::VarIntError),
        signed_parse(s, width, NumEncoding::Leb128, Endianness::LittleEndian) == Err::<
            Parsed<int>,
            EncodingError,
        >(EncodingError::VarIntError),
{
    lemma_run_of_continuations(s, width.spec_bits(), 0, 0);
}

} // verus!
