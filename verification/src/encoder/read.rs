//! Reading sizes, variants, booleans, chars, strings and raw bytes.

use vstd::prelude::*;
use crate::context::State;
use crate::encoder::Encoder;
use crate::error::EncodingError;
use crate::io::Read;
use crate::opaque::lemma_int_bounds;
use crate::opaque::Opaque;
use crate::opaque::OpaqueError;
use crate::settings::BitWidth;
use crate::settings::NumEncoding;
use crate::sign::Signed;
use crate::sign::Unsigned;
use crate::wire::number::decode_signed;
use crate::wire::number::decode_unsigned;
use crate::wire::number::fixed_parse;
use crate::wire::number::read_one;
use crate::wire::number::reads;
use crate::wire::number::signed_parse;
use crate::wire::number::unsigned_parse;
use crate::wire::number::Parsed;
use crate::wire::text::char_parse;
use crate::wire::text::decode_char;
use crate::wire::text::text_parse;

verus! {

/// `String::push`: appends the char to the end of the string.
pub assume_specification[ String::push ](s: &mut String, ch: char)
    ensures
        final(s)@ == old(s)@.push(ch),
;

/// The size that a read under `ctxt` gives from the bytes `s`. An armed size
/// channel is the size, and no byte is taken. Otherwise the size is the
/// number at the front of `s` at the width of sizes, which must fit `usize`
/// and must not be above `max_size`.
pub open spec fn size_parse(ctxt: State, s: Seq<u8>) -> Result<
    Parsed<usize>,
    EncodingError,
> {
    let repr = ctxt.settings.size_repr;
    match ctxt.size_flatten {
        Some(size) => Ok(Parsed { value: size, len: 0 }),
        None => match unsigned_parse(s, repr.width, repr.num_encoding, repr.endianness) {
            Err(e) => Err(e),
            Ok(p) => if p.value > usize::MAX {
                Err(
                    EncodingError::OpaqueConversion(
                        OpaqueError {
                            value: Opaque::Unsigned { value: p.value as u128, width: repr.width },
                            signed: false,
                            width: BitWidth::spec_native(),
                        },
                    ),
                )
            } else if p.value > repr.max_size {
                Err(
                    EncodingError::MaxSizeExceeded {
                        max: repr.max_size,
                        requested: p.value as usize,
                    },
                )
            } else {
                Ok(Parsed { value: p.value as usize, len: p.len })
            },
        },
    }
}

/// The signed size that a read under `ctxt` gives from the bytes `s`: the
/// number at the front of `s` at the width of sizes, which must fit `isize`.
pub open spec fn isize_parse(ctxt: State, s: Seq<u8>) -> Result<
    Parsed<isize>,
    EncodingError,
> {
    let repr = ctxt.settings.size_repr;
    match signed_parse(s, repr.width, repr.num_encoding, repr.endianness) {
        Err(e) => Err(e),
        Ok(p) => if isize::MIN <= p.value <= isize::MAX {
            Ok(Parsed { value: p.value as isize, len: p.len })
        } else {
            Err(
                EncodingError::OpaqueConversion(
                    OpaqueError {
                        value: Opaque::Signed { value: p.value as i128, width: repr.width },
                        signed: true,
                        width: BitWidth::spec_native(),
                    },
                ),
            )
        },
    }
}

/// The variant, widened, that a read under `ctxt` gives from the bytes `s`.
/// An armed variant channel is the variant, and no byte is taken. Otherwise
/// it is the number at the front of `s` at the width of variants.
pub open spec fn variant_parse(ctxt: State, s: Seq<u8>, signed: bool) -> Result<
    Parsed<Opaque>,
    EncodingError,
> {
    let repr = ctxt.settings.variant_repr;
    match ctxt.variant_flatten {
        Some(variant) => Ok(Parsed { value: variant, len: 0 }),
        None => if signed {
            match signed_parse(s, repr.width, repr.num_encoding, repr.endianness) {
                Err(e) => Err(e),
                Ok(p) => Ok(
                    Parsed {
                        value: Opaque::Signed { value: p.value as i128, width: repr.width },
                        len: p.len,
                    },
                ),
            }
        } else {
            match unsigned_parse(s, repr.width, repr.num_encoding, repr.endianness) {
                Err(e) => Err(e),
                Ok(p) => Ok(
                    Parsed {
                        value: Opaque::Unsigned { value: p.value as u128, width: repr.width },
                        len: p.len,
                    },
                ),
            }
        },
    }
}

/// The variant read as by [`variant_parse`] and narrowed to an integer type
/// of the given sign and width, as a mathematical integer. A variant that
/// does not fit is the conversion error.
pub open spec fn narrowed_variant(ctxt: State,
    s: Seq<u8>,
    signed: bool,
    target: BitWidth,
) -> Result<Parsed<int>, EncodingError> {
    match variant_parse(ctxt, s, signed) {
        Err(e) => Err(e),
        Ok(p) => if p.value.fits(signed, target) {
            Ok(Parsed { value: p.value.spec_value(), len: p.len })
        } else {
            Err(
                EncodingError::OpaqueConversion(
                    OpaqueError { value: p.value, signed, width: target },
                ),
            )
        },
    }
}

/// The boolean that a read under `ctxt` gives from the bytes `s`. An armed
/// boolean channel is the boolean, and no byte is taken. Otherwise one byte
/// is taken, which must be 0 or 1.
pub open spec fn bool_parse(ctxt: State, s: Seq<u8>) -> Result<Parsed<bool>, EncodingError> {
    match ctxt.bool_flatten {
        Some(boolean) => Ok(Parsed { value: boolean, len: 0 }),
        None => if s.len() == 0 {
            Err(EncodingError::UnexpectedEnd)
        } else if s[0] == 0 {
            Ok(Parsed { value: false, len: 1 })
        } else if s[0] == 1 {
            Ok(Parsed { value: true, len: 1 })
        } else {
            Err(EncodingError::InvalidBool)
        },
    }
}

/// The byte at the front of `s`.
pub open spec fn byte_parse(s: Seq<u8>) -> Result<Parsed<u8>, EncodingError> {
    if s.len() == 0 {
        Err(EncodingError::UnexpectedEnd)
    } else {
        Ok(Parsed { value: s[0], len: 1 })
    }
}

/// The chars already read, followed by those still to come.
pub open spec fn glue(done: Seq<char>, rest: Result<Seq<char>, EncodingError>) -> Result<
    Seq<char>,
    EncodingError,
> {
    match rest {
        Ok(rest) => Ok(done + rest),
        Err(e) => Err(e),
    }
}

/// The string that a read under `ctxt` gives from the bytes `s`: a size,
/// read like any size, and then the chars that fill exactly that many bytes.
pub open spec fn str_parse(ctxt: State, s: Seq<u8>) -> Result<
    Parsed<Seq<char>>,
    EncodingError,
> {
    match size_parse(ctxt, s) {
        Err(e) => Err(e),
        Ok(size) => match text_parse(
            s.skip(size.len as int),
            size.value as nat,
            ctxt.settings.string_repr,
        ) {
            Err(e) => Err(e),
            Ok(chars) => Ok(Parsed { value: chars, len: size.len + size.value as nat }),
        },
    }
}

impl<'a, T: Read, U> Encoder<'a, T, U> {
    /// Reads a variant and leaves it widened.
    fn read_variant(&mut self, signed: bool) -> (r: Result<Opaque, EncodingError>)
        ensures
            reads(
                old(self).stream,
                final(self).stream,
                r,
                |v: Opaque| v,
                variant_parse(old(self).ctxt.spec_state(), old(self).stream.remaining(), signed),
            ),
            final(self).ctxt == old(self).ctxt.without_variant(),
            old(self).ctxt.variant_flatten matches Some(held) ==> r == Ok::<Opaque, EncodingError>(
                held,
            ) && final(self).stream == old(self).stream,
    {
        let repr = self.ctxt.settings.variant_repr;
        match self.ctxt.variant_flatten() {
            Some(variant) => {
                assert(self.stream.remaining().skip(0) =~= self.stream.remaining());
                Ok(variant)
            },
            None => {
                proof {
                    lemma_int_bounds();
                }
                if signed {
                    match decode_signed(
                        &mut self.stream,
                        repr.width,
                        repr.num_encoding,
                        repr.endianness,
                    ) {
                        Ok(v) => Ok(Opaque::Signed { value: v, width: repr.width }),
                        Err(e) => Err(e),
                    }
                } else {
                    match decode_unsigned(
                        &mut self.stream,
                        repr.width,
                        repr.num_encoding,
                        repr.endianness,
                    ) {
                        Ok(v) => Ok(Opaque::Unsigned { value: v, width: repr.width }),
                        Err(e) => Err(e),
                    }
                }
            },
        }
    }

    /// Reads a size.
    ///
    /// With the size channel armed, the size is what the channel holds and
    /// the stream is not touched, whatever it holds. Otherwise the size is read at the width of sizes; one
    /// that does not fit `usize` fails with the conversion error, and one
    /// above `max_size` with `MaxSizeExceeded`. Either way the channel is
    /// empty afterwards.
    pub fn read_usize(&mut self) -> (r: Result<usize, EncodingError>)
        ensures
            reads(
                old(self).stream,
                final(self).stream,
                r,
                |v: usize| v,
                size_parse(old(self).ctxt.spec_state(), old(self).stream.remaining()),
            ),
            final(self).ctxt == old(self).ctxt.without_size(),
            old(self).ctxt.size_flatten matches Some(n) ==> r == Ok::<usize, EncodingError>(n)
                && final(self).stream == old(self).stream,
    {
        let repr = self.ctxt.settings.size_repr;
        match self.ctxt.size_flatten() {
            Some(size) => {
                assert(self.stream.remaining().skip(0) =~= self.stream.remaining());
                Ok(size)
            },
            None => {
                proof {
                    lemma_int_bounds();
                }
                let wide = match decode_unsigned(
                    &mut self.stream,
                    repr.width,
                    repr.num_encoding,
                    repr.endianness,
                ) {
                    Ok(v) => v,
                    Err(e) => {
                        return Err(e);
                    },
                };
                let value = match (Opaque::Unsigned {
                    value: wide,
                    width: repr.width,
                }).try_into_usize() {
                    Ok(v) => v,
                    Err(e) => {
                        return Err(EncodingError::OpaqueConversion(e));
                    },
                };
                if value > repr.max_size {
                    return Err(
                        EncodingError::MaxSizeExceeded { max: repr.max_size, requested: value },
                    );
                }
                Ok(value)
            },
        }
    }

    /// Reads a signed size at the width of sizes. One that does not fit
    /// `isize` fails with the conversion error.
    pub fn read_isize(&mut self) -> (r: Result<isize, EncodingError>)
        ensures
            reads(
                old(self).stream,
                final(self).stream,
                r,
                |v: isize| v,
                isize_parse(old(self).ctxt.spec_state(), old(self).stream.remaining()),
            ),
            final(self).ctxt == old(self).ctxt,
    {
        let repr = self.ctxt.settings.size_repr;
        proof {
            lemma_int_bounds();
        }
        let wide = match decode_signed(
            &mut self.stream,
            repr.width,
            repr.num_encoding,
            repr.endianness,
        ) {
            Ok(v) => v,
            Err(e) => {
                return Err(e);
            },
        };
        match (Opaque::Signed { value: wide, width: repr.width }).try_into_isize() {
            Ok(v) => Ok(v),
            Err(e) => Err(EncodingError::OpaqueConversion(e)),
        }
    }

    /// Reads an unsigned variant into the integer type `V`.
    ///
    /// With the variant channel armed, the variant is what the channel holds
    /// and no byte is read. Otherwise it is read at the width of variants.
    /// Either way a variant that does not fit `V` fails with the conversion
    /// error, and the channel is empty afterwards.
    pub fn read_uvariant<V: Unsigned>(&mut self) -> (r: Result<V, EncodingError>)
        ensures
            reads(
                old(self).stream,
                final(self).stream,
                r,
                |v: V| v.as_int(),
                narrowed_variant(old(self).ctxt.spec_state(), old(self).stream.remaining(), false, V::width()),
            ),
            final(self).ctxt == old(self).ctxt.without_variant(),
            old(self).ctxt.variant_flatten matches Some(held) ==> final(self).stream == old(self).stream
                && if held.fits(false, V::width()) {
                r matches Ok(v) && v.as_int() == held.spec_value()
            } else {
                r == Err::<V, EncodingError>(
                    EncodingError::OpaqueConversion(
                        OpaqueError { value: held, signed: false, width: V::width() },
                    ),
                )
            },
    {
        match self.read_variant(false) {
            Ok(wide) => match V::from_opaque(wide) {
                Ok(v) => Ok(v),
                Err(e) => Err(EncodingError::OpaqueConversion(e)),
            },
            Err(e) => Err(e),
        }
    }

    /// Reads a signed variant into the integer type `V`. See
    /// [`Encoder::read_uvariant`].
    pub fn read_ivariant<V: Signed>(&mut self) -> (r: Result<V, EncodingError>)
        ensures
            reads(
                old(self).stream,
                final(self).stream,
                r,
                |v: V| v.as_int(),
                narrowed_variant(old(self).ctxt.spec_state(), old(self).stream.remaining(), true, V::width()),
            ),
            final(self).ctxt == old(self).ctxt.without_variant(),
            old(self).ctxt.variant_flatten matches Some(held) ==> final(self).stream == old(self).stream
                && if held.fits(true, V::width()) {
                r matches Ok(v) && v.as_int() == held.spec_value()
            } else {
                r == Err::<V, EncodingError>(
                    EncodingError::OpaqueConversion(
                        OpaqueError { value: held, signed: true, width: V::width() },
                    ),
                )
            },
    {
        match self.read_variant(true) {
            Ok(wide) => match V::from_opaque(wide) {
                Ok(v) => Ok(v),
                Err(e) => Err(EncodingError::OpaqueConversion(e)),
            },
            Err(e) => Err(e),
        }
    }

    /// Reads a boolean.
    ///
    /// With the boolean channel armed, the boolean is what the channel holds
    /// and no byte is read. Otherwise one byte is read: 0 is false, 1 is
    /// true, and anything else fails with `InvalidBool`. Either way the
    /// channel is empty afterwards.
    pub fn read_bool(&mut self) -> (r: Result<bool, EncodingError>)
        ensures
            reads(
                old(self).stream,
                final(self).stream,
                r,
                |v: bool| v,
                bool_parse(old(self).ctxt.spec_state(), old(self).stream.remaining()),
            ),
            final(self).ctxt == old(self).ctxt.without_bool(),
            old(self).ctxt.bool_flatten matches Some(b) ==> r == Ok::<bool, EncodingError>(b)
                && final(self).stream == old(self).stream,
    {
        match self.ctxt.bool_flatten() {
            Some(boolean) => {
                assert(self.stream.remaining().skip(0) =~= self.stream.remaining());
                Ok(boolean)
            },
            None => match read_one(&mut self.stream) {
                Ok(byte) => if byte == 0 {
                    Ok(false)
                } else if byte == 1 {
                    Ok(true)
                } else {
                    Err(EncodingError::InvalidBool)
                },
                Err(e) => Err(e),
            },
        }
    }

    /// Reads a char under the string representation of the context.
    pub fn read_char(&mut self) -> (r: Result<char, EncodingError>)
        ensures
            reads(
                old(self).stream,
                final(self).stream,
                r,
                |v: char| v,
                char_parse(old(self).stream.remaining(), old(self).ctxt.settings.string_repr),
            ),
            final(self).ctxt == old(self).ctxt,
    {
        match decode_char(&mut self.stream, self.ctxt.settings.string_repr, None) {
            Ok(found) => Ok(found.0),
            Err(e) => Err(e),
        }
    }

    /// Reads a string: a size, read like any size, and then the chars that
    /// fill exactly that many bytes, under the string representation of the
    /// context. A char that is cut short by that length is an
    /// `UnexpectedEnd`.
    pub fn read_str(&mut self) -> (r: Result<String, EncodingError>)
        ensures
            reads(
                old(self).stream,
                final(self).stream,
                r,
                |v: String| v@,
                str_parse(old(self).ctxt.spec_state(), old(self).stream.remaining()),
            ),
            final(self).ctxt == old(self).ctxt.without_size(),
    {
        let ghost s0 = old(self).stream.remaining();
        let length = match self.read_usize() {
            Ok(length) => length,
            Err(e) => {
                return Err(e);
            },
        };
        let repr = self.ctxt.settings.string_repr;
        let ghost head = size_parse(old(self).ctxt.spec_state(), s0)->Ok_0.len;
        let ghost s1 = s0.skip(head as int);
        let mut out = String::new();
        let mut left: usize = length;
        proof {
            assert(s1.skip(0) =~= s1);
            assert(Seq::<char>::empty() + text_parse(s1, length as nat, repr)->Ok_0
                =~= text_parse(s1, length as nat, repr)->Ok_0);
        }
        while left > 0
            invariant
                left <= length,
                repr == old(self).ctxt.settings.string_repr,
                self.ctxt == old(self).ctxt.without_size(),
                self.stream.reliable() == old(self).stream.reliable(),
                s0 == old(self).stream.remaining(),
                s1 == s0.skip(head as int),
                head <= s0.len(),
                size_parse(old(self).ctxt.spec_state(), s0) == Ok::<Parsed<usize>, EncodingError>(
                    Parsed { value: length, len: head },
                ),
                length - left <= s1.len(),
                self.stream.remaining() == s1.skip(length - left),
                text_parse(s1, length as nat, repr) == glue(
                    out@,
                    text_parse(s1.skip(length - left), left as nat, repr),
                ),
            decreases left,
        {
            let ghost here = s1.skip(length - left);
            let found = match decode_char(&mut self.stream, repr, Some(left)) {
                Ok(found) => found,
                Err(e) => {
                    return Err(e);
                },
            };
            let ghost done = out@;
            out.push(found.0);
            proof {
                let rest = text_parse(here.skip(found.1 as int), (left - found.1) as nat, repr);
                assert(here.skip(found.1 as int) =~= s1.skip(length - left + found.1));
                assert(text_parse(here, left as nat, repr) == glue(seq![found.0], rest));
                if rest is Ok {
                    assert(done + (seq![found.0] + rest->Ok_0) =~= done.push(found.0)
                        + rest->Ok_0);
                }
            }
            left = left - found.1;
        }
        proof {
            assert(out@ + Seq::<char>::empty() =~= out@);
            assert(s0.skip(head as int).skip(length as int) =~= s0.skip(head + length));
        }
        Ok(out)
    }

    /// Reads the bit pattern of a 32-bit float: four bytes in the byte order
    /// of numbers, whatever the number encoding.
    pub fn read_f32_bits(&mut self) -> (r: Result<u32, EncodingError>)
        ensures
            reads(
                old(self).stream,
                final(self).stream,
                r,
                |v: u32| v as nat,
                fixed_parse(
                    old(self).stream.remaining(),
                    BitWidth::Bit32,
                    old(self).ctxt.settings.num_repr.endianness,
                ),
            ),
            final(self).ctxt == old(self).ctxt,
    {
        self.read_u32_with(NumEncoding::Fixed, self.ctxt.settings.num_repr.endianness)
    }

    /// Reads the bit pattern of a 64-bit float: eight bytes in the byte order
    /// of numbers, whatever the number encoding.
    pub fn read_f64_bits(&mut self) -> (r: Result<u64, EncodingError>)
        ensures
            reads(
                old(self).stream,
                final(self).stream,
                r,
                |v: u64| v as nat,
                fixed_parse(
                    old(self).stream.remaining(),
                    BitWidth::Bit64,
                    old(self).ctxt.settings.num_repr.endianness,
                ),
            ),
            final(self).ctxt == old(self).ctxt,
    {
        self.read_u64_with(NumEncoding::Fixed, self.ctxt.settings.num_repr.endianness)
    }

    /// Reads one byte as it is.
    pub fn read_byte(&mut self) -> (r: Result<u8, EncodingError>)
        ensures
            reads(
                old(self).stream,
                final(self).stream,
                r,
                |v: u8| v,
                byte_parse(old(self).stream.remaining()),
            ),
            final(self).ctxt == old(self).ctxt,
    {
        read_one(&mut self.stream)
    }

    /// Fills all of `buf` with the next bytes of the stream, as they are.
    pub fn read_bytes(&mut self, buf: &mut [u8]) -> (r: Result<(), EncodingError>)
        ensures
            final(buf)@.len() == old(buf)@.len(),
            final(self).stream.reliable() == old(self).stream.reliable(),
            r is Ok ==> old(buf)@.len() <= old(self).stream.remaining().len() && final(buf)@ == old(
                self,
            ).stream.remaining().take(old(buf)@.len() as int) && final(self).stream.remaining()
                == old(self).stream.remaining().skip(old(buf)@.len() as int),
            old(self).stream.reliable() && old(buf)@.len() <= old(self).stream.remaining().len()
                ==> r is Ok,
            old(self).stream.reliable() && r is Err ==> r == Err::<(), EncodingError>(
                EncodingError::UnexpectedEnd,
            ) && final(self).stream.remaining() == old(self).stream.remaining(),
            final(self).ctxt == old(self).ctxt,
    {
        self.stream.read(buf)
    }
}

} // verus!
