//! Writing the primitive integer types.

use vstd::prelude::*;
use crate::encoder::wrote;
use crate::encoder::Encoder;
use crate::error::EncodingError;
use crate::io::Write;
use crate::opaque::lemma_int_bounds;
use crate::settings::BitWidth;
use crate::settings::Endianness;
use crate::settings::NumEncoding;
use crate::wire::number::encode_signed;
use crate::wire::number::encode_unsigned;
use crate::wire::number::signed_bytes;
use crate::wire::number::unsigned_bytes;

verus! {

impl<'a, T: Write, U> Encoder<'a, T, U> {
    /// Writes an `u8` under the number representation of the context.
    pub fn write_u8(&mut self, value: u8) -> (r: Result<(), EncodingError>)
        ensures
            wrote(
                old(self).stream,
                final(self).stream,
                r,
                unsigned_bytes(value as nat, BitWidth::Bit8, old(self).ctxt.settings.num_repr.num_encoding, old(self).ctxt.settings.num_repr.endianness),
            ),
            final(self).ctxt == old(self).ctxt,
    {
        self.write_u8_with(
            value,
            self.ctxt.settings.num_repr.num_encoding,
            self.ctxt.settings.num_repr.endianness,
        )
    }

    /// Writes an `u8` in the given encoding and byte order.
    pub fn write_u8_with(
        &mut self,
        value: u8,
        num_encoding: NumEncoding,
        endianness: Endianness,
    ) -> (r: Result<(), EncodingError>)
        ensures
            wrote(
                old(self).stream,
                final(self).stream,
                r,
                unsigned_bytes(value as nat, BitWidth::Bit8, num_encoding, endianness),
            ),
            final(self).ctxt == old(self).ctxt,
    {
        proof {
            lemma_int_bounds();
        }
        let bytes = encode_unsigned(value as u128, BitWidth::Bit8, num_encoding, endianness);
        self.stream.write(bytes.as_slice())
    }

    /// Writes a `u16` under the number representation of the context.
    pub fn write_u16(&mut self, value: u16) -> (r: Result<(), EncodingError>)
        ensures
            wrote(
                old(self).stream,
                final(self).stream,
                r,
                unsigned_bytes(value as nat, BitWidth::Bit16, old(self).ctxt.settings.num_repr.num_encoding, old(self).ctxt.settings.num_repr.endianness),
            ),
            final(self).ctxt == old(self).ctxt,
    {
        self.write_u16_with(
            value,
            self.ctxt.settings.num_repr.num_encoding,
            self.ctxt.settings.num_repr.endianness,
        )
    }

    /// Writes a `u16` in the given encoding and byte order.
    pub fn write_u16_with(
        &mut self,
        value: u16,
        num_encoding: NumEncoding,
        endianness: Endianness,
    ) -> (r: Result<(), EncodingError>)
        ensures
            wrote(
                old(self).stream,
                final(self).stream,
                r,
                unsigned_bytes(value as nat, BitWidth::Bit16, num_encoding, endianness),
            ),
            final(self).ctxt == old(self).ctxt,
    {
        proof {
            lemma_int_bounds();
        }
        let bytes = encode_unsigned(value as u128, BitWidth::Bit16, num_encoding, endianness);
        self.stream.write(bytes.as_slice())
    }

    /// Writes a `u32` under the number representation of the context.
    pub fn write_u32(&mut self, value: u32) -> (r: Result<(), EncodingError>)
        ensures
            wrote(
                old(self).stream,
                final(self).stream,
                r,
                unsigned_bytes(value as nat, BitWidth::Bit32, old(self).ctxt.settings.num_repr.num_encoding, old(self).ctxt.settings.num_repr.endianness),
            ),
            final(self).ctxt == old(self).ctxt,
    {
        self.write_u32_with(
            value,
            self.ctxt.settings.num_repr.num_encoding,
            self.ctxt.settings.num_repr.endianness,
        )
    }

    /// Writes a `u32` in the given encoding and byte order.
    pub fn write_u32_with(
        &mut self,
        value: u32,
        num_encoding: NumEncoding,
        endianness: Endianness,
    ) -> (r: Result<(), EncodingError>)
        ensures
            wrote(
                old(self).stream,
                final(self).stream,
                r,
                unsigned_bytes(value as nat, BitWidth::Bit32, num_encoding, endianness),
            ),
            final(self).ctxt == old(self).ctxt,
    {
        proof {
            lemma_int_bounds();
        }
        let bytes = encode_unsigned(value as u128, BitWidth::Bit32, num_encoding, endianness);
        self.stream.write(bytes.as_slice())
    }

    /// Writes a `u64` under the number representation of the context.
    pub fn write_u64(&mut self, value: u64) -> (r: Result<(), EncodingError>)
        ensures
            wrote(
                old(self).stream,
                final(self).stream,
                r,
                unsigned_bytes(value as nat, BitWidth::Bit64, old(self).ctxt.settings.num_repr.num_encoding, old(self).ctxt.settings.num_repr.endianness),
            ),
            final(self).ctxt == old(self).ctxt,
    {
        self.write_u64_with(
            value,
            self.ctxt.settings.num_repr.num_encoding,
            self.ctxt.settings.num_repr.endianness,
        )
    }

    /// Writes a `u64` in the given encoding and byte order.
    pub fn write_u64_with(
        &mut self,
        value: u64,
        num_encoding: NumEncoding,
        endianness: Endianness,
    ) -> (r: Result<(), EncodingError>)
        ensures
            wrote(
                old(self).stream,
                final(self).stream,
                r,
                unsigned_bytes(value as nat, BitWidth::Bit64, num_encoding, endianness),
            ),
            final(self).ctxt == old(self).ctxt,
    {
        proof {
            lemma_int_bounds();
        }
        let bytes = encode_unsigned(value as u128, BitWidth::Bit64, num_encoding, endianness);
        self.stream.write(bytes.as_slice())
    }

    /// Writes a `u128` under the number representation of the context.
    pub fn write_u128(&mut self, value: u128) -> (r: Result<(), EncodingError>)
        ensures
            wrote(
                old(self).stream,
                final(self).stream,
                r,
                unsigned_bytes(value as nat, BitWidth::Bit128, old(self).ctxt.settings.num_repr.num_encoding, old(self).ctxt.settings.num_repr.endianness),
            ),
            final(self).ctxt == old(self).ctxt,
    {
        self.write_u128_with(
            value,
            self.ctxt.settings.num_repr.num_encoding,
            self.ctxt.settings.num_repr.endianness,
        )
    }

    /// Writes a `u128` in the given encoding and byte order.
    pub fn write_u128_with(
        &mut self,
        value: u128,
        num_encoding: NumEncoding,
        endianness: Endianness,
    ) -> (r: Result<(), EncodingError>)
        ensures
            wrote(
                old(self).stream,
                final(self).stream,
                r,
                unsigned_bytes(value as nat, BitWidth::Bit128, num_encoding, endianness),
            ),
            final(self).ctxt == old(self).ctxt,
    {
        proof {
            lemma_int_bounds();
        }
        let bytes = encode_unsigned(value as u128, BitWidth::Bit128, num_encoding, endianness);
        self.stream.write(bytes.as_slice())
    }

    /// Writes an `i8` under the number representation of the context.
    pub fn write_i8(&mut self, value: i8) -> (r: Result<(), EncodingError>)
        ensures
            wrote(
                old(self).stream,
                final(self).stream,
                r,
                signed_bytes(value as int, BitWidth::Bit8, old(self).ctxt.settings.num_repr.num_encoding, old(self).ctxt.settings.num_repr.endianness),
            ),
            final(self).ctxt == old(self).ctxt,
    {
        self.write_i8_with(
            value,
            self.ctxt.settings.num_repr.num_encoding,
            self.ctxt.settings.num_repr.endianness,
        )
    }

    /// Writes an `i8` in the given encoding and byte order.
    pub fn write_i8_with(
        &mut self,
        value: i8,
        num_encoding: NumEncoding,
        endianness: Endianness,
    ) -> (r: Result<(), EncodingError>)
        ensures
            wrote(
                old(self).stream,
                final(self).stream,
                r,
                signed_bytes(value as int, BitWidth::Bit8, num_encoding, endianness),
            ),
            final(self).ctxt == old(self).ctxt,
    {
        proof {
            lemma_int_bounds();
        }
        let bytes = encode_signed(value as i128, BitWidth::Bit8, num_encoding, endianness);
        self.stream.write(bytes.as_slice())
    }

    /// Writes an `i16` under the number representation of the context.
    pub fn write_i16(&mut self, value: i16) -> (r: Result<(), EncodingError>)
        ensures
            wrote(
                old(self).stream,
                final(self).stream,
                r,
                signed_bytes(value as int, BitWidth::Bit16, old(self).ctxt.settings.num_repr.num_encoding, old(self).ctxt.settings.num_repr.endianness),
            ),
            final(self).ctxt == old(self).ctxt,
    {
        self.write_i16_with(
            value,
            self.ctxt.settings.num_repr.num_encoding,
            self.ctxt.settings.num_repr.endianness,
        )
    }

    /// Writes an `i16` in the given encoding and byte order.
    pub fn write_i16_with(
        &mut self,
        value: i16,
        num_encoding: NumEncoding,
        endianness: Endianness,
    ) -> (r: Result<(), EncodingError>)
        ensures
            wrote(
                old(self).stream,
                final(self).stream,
                r,
                signed_bytes(value as int, BitWidth::Bit16, num_encoding, endianness),
            ),
            final(self).ctxt == old(self).ctxt,
    {
        proof {
            lemma_int_bounds();
        }
        let bytes = encode_signed(value as i128, BitWidth::Bit16, num_encoding, endianness);
        self.stream.write(bytes.as_slice())
    }

    /// Writes an `i32` under the number representation of the context.
    pub fn write_i32(&mut self, value: i32) -> (r: Result<(), EncodingError>)
        ensures
            wrote(
                old(self).stream,
                final(self).stream,
                r,
                signed_bytes(value as int, BitWidth::Bit32, old(self).ctxt.settings.num_repr.num_encoding, old(self).ctxt.settings.num_repr.endianness),
            ),
            final(self).ctxt == old(self).ctxt,
    {
        self.write_i32_with(
            value,
            self.ctxt.settings.num_repr.num_encoding,
            self.ctxt.settings.num_repr.endianness,
        )
    }

    /// Writes an `i32` in the given encoding and byte order.
    pub fn write_i32_with(
        &mut self,
        value: i32,
        num_encoding: NumEncoding,
        endianness: Endianness,
    ) -> (r: Result<(), EncodingError>)
        ensures
            wrote(
                old(self).stream,
                final(self).stream,
                r,
                signed_bytes(value as int, BitWidth::Bit32, num_encoding, endianness),
            ),
            final(self).ctxt == old(self).ctxt,
    {
        proof {
            lemma_int_bounds();
        }
        let bytes = encode_signed(value as i128, BitWidth::Bit32, num_encoding, endianness);
        self.stream.write(bytes.as_slice())
    }

    /// Writes an `i64` under the number representation of the context.
    pub fn write_i64(&mut self, value: i64) -> (r: Result<(), EncodingError>)
        ensures
            wrote(
                old(self).stream,
                final(self).stream,
                r,
                signed_bytes(value as int, BitWidth::Bit64, old(self).ctxt.settings.num_repr.num_encoding, old(self).ctxt.settings.num_repr.endianness),
            ),
            final(self).ctxt == old(self).ctxt,
    {
        self.write_i64_with(
            value,
            self.ctxt.settings.num_repr.num_encoding,
            self.ctxt.settings.num_repr.endianness,
        )
    }

    /// Writes an `i64` in the given encoding and byte order.
    pub fn write_i64_with(
        &mut self,
        value: i64,
        num_encoding: NumEncoding,
        endianness: Endianness,
    ) -> (r: Result<(), EncodingError>)
        ensures
            wrote(
                old(self).stream,
                final(self).stream,
                r,
                signed_bytes(value as int, BitWidth::Bit64, num_encoding, endianness),
            ),
            final(self).ctxt == old(self).ctxt,
    {
        proof {
            lemma_int_bounds();
        }
        let bytes = encode_signed(value as i128, BitWidth::Bit64, num_encoding, endianness);
        self.stream.write(bytes.as_slice())
    }

    /// Writes an `i128` under the number representation of the context.
    pub fn write_i128(&mut self, value: i128) -> (r: Result<(), EncodingError>)
        ensures
            wrote(
                old(self).stream,
                final(self).stream,
                r,
                signed_bytes(value as int, BitWidth::Bit128, old(self).ctxt.settings.num_repr.num_encoding, old(self).ctxt.settings.num_repr.endianness),
            ),
            final(self).ctxt == old(self).ctxt,
    {
        self.write_i128_with(
            value,
            self.ctxt.settings.num_repr.num_encoding,
            self.ctxt.settings.num_repr.endianness,
        )
    }

    /// Writes an `i128` in the given encoding and byte order.
    pub fn write_i128_with(
        &mut self,
        value: i128,
        num_encoding: NumEncoding,
        endianness: Endianness,
    ) -> (r: Result<(), EncodingError>)
        ensures
            wrote(
                old(self).stream,
                final(self).stream,
                r,
                signed_bytes(value as int, BitWidth::Bit128, num_encoding, endianness),
            ),
            final(self).ctxt == old(self).ctxt,
    {
        proof {
            lemma_int_bounds();
        }
        let bytes = encode_signed(value as i128, BitWidth::Bit128, num_encoding, endianness);
        self.stream.write(bytes.as_slice())
    }

}

} // verus!
