//! Writing sizes, variants, booleans, chars, strings and raw bytes.

use vstd::prelude::*;
use crate::context::Context;
use crate::context::State;
use crate::encoder::wrote;
use crate::encoder::Encoder;
use crate::error::EncodingError;
use crate::error::FlattenError;
use crate::io::Capacity;
use crate::io::SizeTrack;
use crate::io::Write;
use crate::io::Zero;
use crate::opaque::Opaque;
use crate::opaque::OpaqueError;
use crate::settings::NumEncoding;
use crate::sign::Signed;
use crate::sign::Unsigned;
use crate::wire::fixed::fixed_bytes;
use crate::wire::number::encode_signed;
use crate::wire::number::encode_unsigned;
use crate::wire::number::signed_bytes;
use crate::wire::number::unsigned_bytes;
use crate::wire::text::char_bytes;
use crate::wire::text::encode_char;
use crate::wire::text::lemma_str_bytes_concat;
use crate::wire::text::lemma_str_bytes_push;
use crate::wire::text::str_bytes;

verus! {

/// What a write did, against what the value and the context call for. Where
/// they call for bytes, those bytes were written in one piece or not at all,
/// and the context is the given one. Where they call for an error, that
/// error came back and nothing has changed.
pub open spec fn emits<'a, W: Write, U>(
    before: Encoder<'a, W, U>,
    after: Encoder<'a, W, U>,
    r: Result<(), EncodingError>,
    image: Result<Seq<u8>, EncodingError>,
    ctxt: Context<'a, U>,
) -> bool {
    match image {
        Ok(bytes) => wrote(before.stream, after.stream, r, bytes) && after.ctxt == ctxt,
        Err(e) => r == Err::<(), EncodingError>(e) && after.stream == before.stream && after.ctxt
            == before.ctxt,
    }
}

/// The bytes that stand for the size `value` under `ctxt`, or the error that
/// it meets. An armed size channel takes the place of the bytes if it holds
/// `value`, and is a mismatch otherwise. With no channel armed the size must
/// not be above `max_size` and must fit the width of sizes.
pub open spec fn size_image(ctxt: State, value: usize) -> Result<Seq<u8>, EncodingError> {
    let repr = ctxt.settings.size_repr;
    match ctxt.size_flatten {
        Some(size) => if size == value {
            Ok(Seq::empty())
        } else {
            Err(
                EncodingError::FlattenError(
                    FlattenError::LenMismatch { expected: size, got: value },
                ),
            )
        },
        None => if value > repr.max_size {
            Err(EncodingError::MaxSizeExceeded { max: repr.max_size, requested: value })
        } else if !Opaque::spec_from_usize(value).fits(false, repr.width) {
            Err(
                EncodingError::OpaqueConversion(
                    OpaqueError {
                        value: Opaque::spec_from_usize(value),
                        signed: false,
                        width: repr.width,
                    },
                ),
            )
        } else {
            Ok(unsigned_bytes(value as nat, repr.width, repr.num_encoding, repr.endianness))
        },
    }
}

/// The bytes that stand for the signed size `value` under `ctxt`, or the
/// conversion error where it does not fit the width of sizes.
pub open spec fn isize_image(ctxt: State, value: isize) -> Result<Seq<u8>, EncodingError> {
    let repr = ctxt.settings.size_repr;
    if !Opaque::spec_from_isize(value).fits(true, repr.width) {
        Err(
            EncodingError::OpaqueConversion(
                OpaqueError { value: Opaque::spec_from_isize(value), signed: true, width: repr.width },
            ),
        )
    } else {
        Ok(signed_bytes(value as int, repr.width, repr.num_encoding, repr.endianness))
    }
}

/// The bytes that stand for the variant `value` under `ctxt`, or the error
/// that it meets. An armed variant channel takes the place of the bytes if
/// it holds the same number, and is a mismatch otherwise. With no channel
/// armed the variant must fit the width of variants.
pub open spec fn variant_image(ctxt: State, value: Opaque) -> Result<
    Seq<u8>,
    EncodingError,
> {
    let repr = ctxt.settings.variant_repr;
    match ctxt.variant_flatten {
        Some(variant) => if variant.spec_value() == value.spec_value() {
            Ok(Seq::empty())
        } else {
            Err(
                EncodingError::FlattenError(
                    FlattenError::VariantMismatch { expected: variant, got: value },
                ),
            )
        },
        None => if !value.fits(value.spec_signed(), repr.width) {
            Err(
                EncodingError::OpaqueConversion(
                    OpaqueError { value, signed: value.spec_signed(), width: repr.width },
                ),
            )
        } else if value.spec_signed() {
            Ok(signed_bytes(value.spec_value(), repr.width, repr.num_encoding, repr.endianness))
        } else {
            Ok(
                unsigned_bytes(
                    value.spec_value() as nat,
                    repr.width,
                    repr.num_encoding,
                    repr.endianness,
                ),
            )
        },
    }
}

/// The byte that stands for a boolean: 1 for true, 0 for false.
pub open spec fn bool_byte(value: bool) -> u8 {
    if value {
        1
    } else {
        0
    }
}

/// The bytes that stand for the boolean `value` under `ctxt`, or the error
/// that it meets. An armed boolean channel takes the place of the byte if it
/// holds `value`, and is a mismatch otherwise.
pub open spec fn bool_image(ctxt: State, value: bool) -> Result<Seq<u8>, EncodingError> {
    match ctxt.bool_flatten {
        Some(boolean) => if boolean == value {
            Ok(Seq::empty())
        } else {
            Err(
                EncodingError::FlattenError(
                    FlattenError::BoolMismatch { expected: boolean, got: value },
                ),
            )
        },
        None => Ok(seq![bool_byte(value)]),
    }
}

/// The bytes that stand for a string under `ctxt`: its length in bytes as a
/// size, then the bytes of its chars. A string of `usize::MAX` bytes or more
/// has no length that could be written.
pub open spec fn str_image(ctxt: State, chars: Seq<char>) -> Result<
    Seq<u8>,
    EncodingError,
> {
    let body = str_bytes(chars, ctxt.settings.string_repr);
    if body.len() >= usize::MAX {
        Err(
            EncodingError::MaxSizeExceeded {
                max: ctxt.settings.size_repr.max_size,
                requested: usize::MAX,
            },
        )
    } else {
        match size_image(ctxt, body.len() as usize) {
            Err(e) => Err(e),
            Ok(prefix) => Ok(prefix + body),
        }
    }
}

/// What an attempt to write `bytes` in several pieces did. Success appends
/// just those bytes. Where the capacity of the writer is known, it decides
/// the outcome. A failure may leave some of the pieces written.
pub open spec fn wrote_in_parts<W: Write>(
    before: W,
    after: W,
    r: Result<(), EncodingError>,
    bytes: Seq<u8>,
) -> bool {
    &&& r is Ok ==> after.written() == before.written() + bytes && after.capacity()
        == before.capacity().after(bytes.len())
    &&& before.capacity().takes(bytes.len()) ==> r is Ok
    &&& before.capacity().refuses(bytes.len()) ==> r == Err::<(), EncodingError>(
        EncodingError::UnexpectedEnd,
    )
}

impl<'a, T: Write, U> Encoder<'a, T, U> {
    /// Writes a string: its length in bytes as a size, then each of its
    /// chars, under the string representation of the context.
    ///
    /// The length is measured first, by encoding the chars into a sink that
    /// only counts. It is then written like any size: an armed size channel
    /// takes its place if the two agree. A failure of the stream may leave
    /// part of the string written.
    pub fn write_str(&mut self, string: &str) -> (r: Result<(), EncodingError>)
        ensures
            match str_image(old(self).ctxt.spec_state(), string@) {
                Ok(bytes) => wrote_in_parts(old(self).stream, final(self).stream, r, bytes)
                    && final(self).ctxt == old(self).ctxt.without_size(),
                Err(e) => r == Err::<(), EncodingError>(e) && final(self).stream == old(
                    self,
                ).stream && final(self).ctxt == old(self).ctxt,
            },
    {
        let repr = self.ctxt.settings.string_repr;
        let ghost chars = string@;
        let ghost body = str_bytes(chars, repr);
        let mut meter = SizeTrack::new(Zero::new());
        for c in it: string.chars()
            invariant
                chars == string@,
                it.seq() == chars,
                meter.inner.capacity() == Capacity::Unlimited,
                meter.size == crate::io::adapters::saturated(
                    str_bytes(chars.take(it.index() as int), repr).len(),
                ),
        {
            let bytes = encode_char(c, repr);
            proof {
                lemma_str_bytes_push(chars.take(it.index() as int), c, repr);
                assert(chars.take(it.index() + 1) =~= chars.take(it.index() as int).push(c));
            }
            match meter.write(bytes.as_slice()) {
                Ok(()) => {},
                Err(e) => {
                    return Err(e);
                },
            }
        }
        assert(chars.take(chars.len() as int) =~= chars);
        let size = meter.size_written();
        if size == usize::MAX {
            return Err(
                EncodingError::MaxSizeExceeded {
                    max: self.ctxt.settings.size_repr.max_size,
                    requested: usize::MAX,
                },
            );
        }
        match self.write_usize(size) {
            Ok(()) => {},
            Err(e) => {
                return Err(e);
            },
        }
        let ghost prefix = size_image(old(self).ctxt.spec_state(), size)->Ok_0;
        let ghost start = old(self).stream.capacity();
        for c in it: string.chars()
            invariant
                chars == string@,
                it.seq() == chars,
                repr == self.ctxt.settings.string_repr,
                body == str_bytes(chars, repr),
                start == old(self).stream.capacity(),
                str_image(old(self).ctxt.spec_state(), chars) == Ok::<Seq<u8>, EncodingError>(prefix + body),
                self.ctxt == old(self).ctxt.without_size(),
                self.stream.written() == old(self).stream.written() + prefix + str_bytes(
                    chars.take(it.index() as int),
                    repr,
                ),
                start.admits(prefix.len() + str_bytes(chars.take(it.index() as int), repr).len()),
                self.stream.capacity() == start.after(
                    prefix.len() + str_bytes(chars.take(it.index() as int), repr).len(),
                ),
        {
            proof {
                lemma_str_bytes_push(chars.take(it.index() as int), c, repr);
                assert(chars.take(it.index() + 1) =~= chars.take(it.index() as int).push(c));
                lemma_str_bytes_concat(
                    chars.take(it.index() + 1),
                    chars.skip(it.index() + 1),
                    repr,
                );
                assert(chars.take(it.index() + 1) + chars.skip(it.index() + 1) =~= chars);
            }
            let ghost used = prefix.len() + str_bytes(chars.take(it.index() as int), repr).len();
            let ghost piece = char_bytes(c, repr).len();
            proof {
                assert(body.len() == str_bytes(chars.take(it.index() + 1), repr).len() + str_bytes(
                    chars.skip(it.index() + 1),
                    repr,
                ).len());
                assert(used + piece <= prefix.len() + body.len());
            }
            match self.write_char(c) {
                Ok(()) => {
                    assert(self.stream.written() =~= old(self).stream.written() + prefix
                        + str_bytes(chars.take(it.index() + 1), repr));
                },
                Err(e) => {
                    assert(!start.after(used).takes(piece));
                    assert((prefix + body).len() == prefix.len() + body.len());
                    return Err(e);
                },
            }
        }
        proof {
            assert(chars.take(chars.len() as int) =~= chars);
            assert(old(self).stream.written() + prefix + body =~= old(self).stream.written() + (
            prefix + body));
        }
        Ok(())
    }

    /// Writes a variant that has been widened already.
    fn write_variant(&mut self, value: Opaque) -> (r: Result<(), EncodingError>)
        ensures
            emits(
                *old(self),
                *final(self),
                r,
                variant_image(old(self).ctxt.spec_state(), value),
                old(self).ctxt.without_variant(),
            ),            old(self).ctxt.variant_flatten matches Some(held) && held.spec_value() == value.spec_value() ==> r is Ok && final(self).stream == old(self).stream,
    {
        let repr = self.ctxt.settings.variant_repr;
        match self.ctxt.variant_flatten {
            Some(variant) => {
                if !variant.same_value(&value) {
                    return Err(
                        EncodingError::FlattenError(
                            FlattenError::VariantMismatch { expected: variant, got: value },
                        ),
                    );
                }
                self.ctxt.variant_flatten = None;
                assert(old(self).stream.written() + Seq::<u8>::empty() =~= old(
                    self,
                ).stream.written());
                Ok(())
            },
            None => {
                let bytes = if value.is_signed() {
                    match value.narrow_signed(repr.width) {
                        Ok(v) => encode_signed(v, repr.width, repr.num_encoding, repr.endianness),
                        Err(e) => {
                            return Err(EncodingError::OpaqueConversion(e));
                        },
                    }
                } else {
                    match value.narrow_unsigned(repr.width) {
                        Ok(v) => encode_unsigned(v, repr.width, repr.num_encoding, repr.endianness),
                        Err(e) => {
                            return Err(EncodingError::OpaqueConversion(e));
                        },
                    }
                };
                self.stream.write(bytes.as_slice())
            },
        }
    }

    /// Writes a size.
    ///
    /// With the size channel armed nothing is written: the channel must hold
    /// `value`, and is empty afterwards; if it holds another size the write
    /// fails with `LenMismatch` and the channel stays armed. With no channel
    /// armed, a size above `max_size` fails with `MaxSizeExceeded`, and one
    /// that does not fit the width of sizes with the conversion error;
    /// otherwise the size is written at that width.
    pub fn write_usize(&mut self, value: usize) -> (r: Result<(), EncodingError>)
        ensures
            emits(
                *old(self),
                *final(self),
                r,
                size_image(old(self).ctxt.spec_state(), value),
                old(self).ctxt.without_size(),
            ),            old(self).ctxt.size_flatten == Some(value) ==> r is Ok && final(self).stream == old(self).stream,
    {
        let repr = self.ctxt.settings.size_repr;
        match self.ctxt.size_flatten {
            Some(size) => {
                if size != value {
                    return Err(
                        EncodingError::FlattenError(
                            FlattenError::LenMismatch { expected: size, got: value },
                        ),
                    );
                }
                self.ctxt.size_flatten = None;
                assert(old(self).stream.written() + Seq::<u8>::empty() =~= old(
                    self,
                ).stream.written());
                Ok(())
            },
            None => {
                if value > repr.max_size {
                    return Err(
                        EncodingError::MaxSizeExceeded { max: repr.max_size, requested: value },
                    );
                }
                let narrowed = match Opaque::from_usize(value).narrow_unsigned(repr.width) {
                    Ok(v) => v,
                    Err(e) => {
                        return Err(EncodingError::OpaqueConversion(e));
                    },
                };
                let bytes = encode_unsigned(
                    narrowed,
                    repr.width,
                    repr.num_encoding,
                    repr.endianness,
                );
                self.stream.write(bytes.as_slice())
            },
        }
    }

    /// Writes a signed size at the width of sizes. One that does not fit
    /// that width fails with the conversion error.
    pub fn write_isize(&mut self, value: isize) -> (r: Result<(), EncodingError>)
        ensures
            emits(*old(self), *final(self), r, isize_image(old(self).ctxt.spec_state(), value), old(self).ctxt),
    {
        let repr = self.ctxt.settings.size_repr;
        let narrowed = match Opaque::from_isize(value).narrow_signed(repr.width) {
            Ok(v) => v,
            Err(e) => {
                return Err(EncodingError::OpaqueConversion(e));
            },
        };
        let bytes = encode_signed(narrowed, repr.width, repr.num_encoding, repr.endianness);
        self.stream.write(bytes.as_slice())
    }

    /// Writes an unsigned variant.
    ///
    /// With the variant channel armed nothing is written: the channel must
    /// hold the same number, and is empty afterwards; if it holds another the
    /// write fails with `VariantMismatch` and the channel stays armed. With
    /// no channel armed the variant is written at the width of variants, and
    /// one that does not fit that width fails with the conversion error.
    pub fn write_uvariant<V: Unsigned>(&mut self, value: V) -> (r: Result<(), EncodingError>)
        ensures
            emits(
                *old(self),
                *final(self),
                r,
                variant_image(old(self).ctxt.spec_state(),
                    Opaque::Unsigned { value: value.as_int() as u128, width: V::width() },
                ),
                old(self).ctxt.without_variant(),
            ),            old(self).ctxt.variant_flatten matches Some(held) && held.spec_value() == value.as_int() ==> r is Ok && final(self).stream == old(self).stream,
    {
        self.write_variant(value.to_opaque())
    }

    /// Writes a signed variant. See [`Encoder::write_uvariant`].
    pub fn write_ivariant<V: Signed>(&mut self, value: V) -> (r: Result<(), EncodingError>)
        ensures
            emits(
                *old(self),
                *final(self),
                r,
                variant_image(old(self).ctxt.spec_state(),
                    Opaque::Signed { value: value.as_int() as i128, width: V::width() },
                ),
                old(self).ctxt.without_variant(),
            ),            old(self).ctxt.variant_flatten matches Some(held) && held.spec_value() == value.as_int() ==> r is Ok && final(self).stream == old(self).stream,
    {
        self.write_variant(value.to_opaque())
    }

    /// Writes a boolean as one byte, 1 for true and 0 for false.
    ///
    /// With the boolean channel armed nothing is written: the channel must
    /// hold `value`, and is empty afterwards; if it holds the other value
    /// the write fails with `BoolMismatch` and the channel stays armed.
    pub fn write_bool(&mut self, value: bool) -> (r: Result<(), EncodingError>)
        ensures
            emits(
                *old(self),
                *final(self),
                r,
                bool_image(old(self).ctxt.spec_state(), value),
                old(self).ctxt.without_bool(),
            ),            old(self).ctxt.bool_flatten == Some(value) ==> r is Ok && final(self).stream == old(self).stream,
    {
        match self.ctxt.bool_flatten {
            Some(boolean) => {
                if boolean != value {
                    return Err(
                        EncodingError::FlattenError(
                            FlattenError::BoolMismatch { expected: boolean, got: value },
                        ),
                    );
                }
                self.ctxt.bool_flatten = None;
                assert(old(self).stream.written() + Seq::<u8>::empty() =~= old(
                    self,
                ).stream.written());
                Ok(())
            },
            None => self.write_byte(
                if value {
                    1
                } else {
                    0
                },
            ),
        }
    }

    /// Writes a char under the string representation of the context.
    pub fn write_char(&mut self, value: char) -> (r: Result<(), EncodingError>)
        ensures
            wrote(
                old(self).stream,
                final(self).stream,
                r,
                char_bytes(value, old(self).ctxt.settings.string_repr),
            ),
            final(self).ctxt == old(self).ctxt,
    {
        let bytes = encode_char(value, self.ctxt.settings.string_repr);
        self.stream.write(bytes.as_slice())
    }

    /// Writes the bit pattern of a 32-bit float: all four bytes, in the byte
    /// order of numbers, whatever the number encoding.
    pub fn write_f32_bits(&mut self, bits: u32) -> (r: Result<(), EncodingError>)
        ensures
            wrote(
                old(self).stream,
                final(self).stream,
                r,
                fixed_bytes(bits as nat, 4, old(self).ctxt.settings.num_repr.endianness),
            ),
            final(self).ctxt == old(self).ctxt,
    {
        self.write_u32_with(bits, NumEncoding::Fixed, self.ctxt.settings.num_repr.endianness)
    }

    /// Writes the bit pattern of a 64-bit float: all eight bytes, in the byte
    /// order of numbers, whatever the number encoding.
    pub fn write_f64_bits(&mut self, bits: u64) -> (r: Result<(), EncodingError>)
        ensures
            wrote(
                old(self).stream,
                final(self).stream,
                r,
                fixed_bytes(bits as nat, 8, old(self).ctxt.settings.num_repr.endianness),
            ),
            final(self).ctxt == old(self).ctxt,
    {
        self.write_u64_with(bits, NumEncoding::Fixed, self.ctxt.settings.num_repr.endianness)
    }

    /// Writes one byte as it is.
    pub fn write_byte(&mut self, byte: u8) -> (r: Result<(), EncodingError>)
        ensures
            wrote(old(self).stream, final(self).stream, r, seq![byte]),
            final(self).ctxt == old(self).ctxt,
    {
        let buf = [byte];
        assert(buf@ =~= seq![byte]);
        self.stream.write(&buf)
    }

    /// Writes the bytes as they are.
    pub fn write_bytes(&mut self, bytes: &[u8]) -> (r: Result<(), EncodingError>)
        ensures
            wrote(old(self).stream, final(self).stream, r, bytes@),
            final(self).ctxt == old(self).ctxt,
    {
        self.stream.write(bytes)
    }
}

} // verus!
