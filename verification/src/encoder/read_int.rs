//! Reading the primitive integer types.

use vstd::prelude::*;
use crate::encoder::Encoder;
use crate::error::EncodingError;
use crate::io::Read;
use crate::opaque::lemma_int_bounds;
use crate::settings::BitWidth;
use crate::settings::Endianness;
use crate::settings::NumEncoding;
use crate::wire::number::decode_signed;
use crate::wire::number::decode_unsigned;
use crate::wire::number::reads;
use crate::wire::number::signed_parse;
use crate::wire::number::unsigned_parse;

verus! {

impl<'a, T: Read, U> Encoder<'a, T, U> {
    /// Reads an `u8` under the number representation of the context.
    pub fn read_u8(&mut self) -> (r: Result<u8, EncodingError>)
        ensures
            reads(
                old(self).stream,
                final(self).stream,
                r,
                |v: u8| v as nat,
                unsigned_parse(
                    old(self).stream.remaining(),
                    BitWidth::Bit8,
                    old(self).ctxt.settings.num_repr.num_encoding,
                    old(self).ctxt.settings.num_repr.endianness,
                ),
            ),
            final(self).ctxt == old(self).ctxt,
    {
        self.read_u8_with(
            self.ctxt.settings.num_repr.num_encoding,
            self.ctxt.settings.num_repr.endianness,
        )
    }

    /// Reads an `u8` in the given encoding and byte order.
    pub fn read_u8_with(&mut self, num_encoding: NumEncoding, endianness: Endianness) -> (r: Result<
        u8,
        EncodingError,
    >)
        ensures
            reads(
                old(self).stream,
                final(self).stream,
                r,
                |v: u8| v as nat,
                unsigned_parse(
                    old(self).stream.remaining(),
                    BitWidth::Bit8,
                    num_encoding,
                    endianness,
                ),
            ),
            final(self).ctxt == old(self).ctxt,
    {
        proof {
            lemma_int_bounds();
        }
        match decode_unsigned(&mut self.stream, BitWidth::Bit8, num_encoding, endianness) {
            Ok(v) => Ok(v as u8),
            Err(e) => Err(e),
        }
    }

    /// Reads a `u16` under the number representation of the context.
    pub fn read_u16(&mut self) -> (r: Result<u16, EncodingError>)
        ensures
            reads(
                old(self).stream,
                final(self).stream,
                r,
                |v: u16| v as nat,
                unsigned_parse(
                    old(self).stream.remaining(),
                    BitWidth::Bit16,
                    old(self).ctxt.settings.num_repr.num_encoding,
                    old(self).ctxt.settings.num_repr.endianness,
                ),
            ),
            final(self).ctxt == old(self).ctxt,
    {
        self.read_u16_with(
            self.ctxt.settings.num_repr.num_encoding,
            self.ctxt.settings.num_repr.endianness,
        )
    }

    /// Reads a `u16` in the given encoding and byte order.
    pub fn read_u16_with(&mut self, num_encoding: NumEncoding, endianness: Endianness) -> (r: Result<
        u16,
        EncodingError,
    >)
        ensures
            reads(
                old(self).stream,
                final(self).stream,
                r,
                |v: u16| v as nat,
                unsigned_parse(
                    old(self).stream.remaining(),
                    BitWidth::Bit16,
                    num_encoding,
                    endianness,
                ),
            ),
            final(self).ctxt == old(self).ctxt,
    {
        proof {
            lemma_int_bounds();
        }
        match decode_unsigned(&mut self.stream, BitWidth::Bit16, num_encoding, endianness) {
            Ok(v) => Ok(v as u16),
            Err(e) => Err(e),
        }
    }

    /// Reads a `u32` under the number representation of the context.
    pub fn read_u32(&mut self) -> (r: Result<u32, EncodingError>)
        ensures
            reads(
                old(self).stream,
                final(self).stream,
                r,
                |v: u32| v as nat,
                unsigned_parse(
                    old(self).stream.remaining(),
                    BitWidth::Bit32,
                    old(self).ctxt.settings.num_repr.num_encoding,
                    old(self).ctxt.settings.num_repr.endianness,
                ),
            ),
            final(self).ctxt == old(self).ctxt,
    {
        self.read_u32_with(
            self.ctxt.settings.num_repr.num_encoding,
            self.ctxt.settings.num_repr.endianness,
        )
    }

    /// Reads a `u32` in the given encoding and byte order.
    pub fn read_u32_with(&mut self, num_encoding: NumEncoding, endianness: Endianness) -> (r: Result<
        u32,
        EncodingError,
    >)
        ensures
            reads(
                old(self).stream,
                final(self).stream,
                r,
                |v: u32| v as nat,
                unsigned_parse(
                    old(self).stream.remaining(),
                    BitWidth::Bit32,
                    num_encoding,
                    endianness,
                ),
            ),
            final(self).ctxt == old(self).ctxt,
    {
        proof {
            lemma_int_bounds();
        }
        match decode_unsigned(&mut self.stream, BitWidth::Bit32, num_encoding, endianness) {
            Ok(v) => Ok(v as u32),
            Err(e) => Err(e),
        }
    }

    /// Reads a `u64` under the number representation of the context.
    pub fn read_u64(&mut self) -> (r: Result<u64, EncodingError>)
        ensures
            reads(
                old(self).stream,
                final(self).stream,
                r,
                |v: u64| v as nat,
                unsigned_parse(
                    old(self).stream.remaining(),
                    BitWidth::Bit64,
                    old(self).ctxt.settings.num_repr.num_encoding,
                    old(self).ctxt.settings.num_repr.endianness,
                ),
            ),
            final(self).ctxt == old(self).ctxt,
    {
        self.read_u64_with(
            self.ctxt.settings.num_repr.num_encoding,
            self.ctxt.settings.num_repr.endianness,
        )
    }

    /// Reads a `u64` in the given encoding and byte order.
    pub fn read_u64_with(&mut self, num_encoding: NumEncoding, endianness: Endianness) -> (r: Result<
        u64,
        EncodingError,
    >)
        ensures
            reads(
                old(self).stream,
                final(self).stream,
                r,
                |v: u64| v as nat,
                unsigned_parse(
                    old(self).stream.remaining(),
                    BitWidth::Bit64,
                    num_encoding,
                    endianness,
                ),
            ),
            final(self).ctxt == old(self).ctxt,
    {
        proof {
            lemma_int_bounds();
        }
        match decode_unsigned(&mut self.stream, BitWidth::Bit64, num_encoding, endianness) {
            Ok(v) => Ok(v as u64),
            Err(e) => Err(e),
        }
    }

    /// Reads a `u128` under the number representation of the context.
    pub fn read_u128(&mut self) -> (r: Result<u128, EncodingError>)
        ensures
            reads(
                old(self).stream,
                final(self).stream,
                r,
                |v: u128| v as nat,
                unsigned_parse(
                    old(self).stream.remaining(),
                    BitWidth::Bit128,
                    old(self).ctxt.settings.num_repr.num_encoding,
                    old(self).ctxt.settings.num_repr.endianness,
                ),
            ),
            final(self).ctxt == old(self).ctxt,
    {
        self.read_u128_with(
            self.ctxt.settings.num_repr.num_encoding,
            self.ctxt.settings.num_repr.endianness,
        )
    }

    /// Reads a `u128` in the given encoding and byte order.
    pub fn read_u128_with(&mut self, num_encoding: NumEncoding, endianness: Endianness) -> (r: Result<
        u128,
        EncodingError,
    >)
        ensures
            reads(
                old(self).stream,
                final(self).stream,
                r,
                |v: u128| v as nat,
                unsigned_parse(
                    old(self).stream.remaining(),
                    BitWidth::Bit128,
                    num_encoding,
                    endianness,
                ),
            ),
            final(self).ctxt == old(self).ctxt,
    {
        proof {
            lemma_int_bounds();
        }
        match decode_unsigned(&mut self.stream, BitWidth::Bit128, num_encoding, endianness) {
            Ok(v) => Ok(v),
            Err(e) => Err(e),
        }
    }

    /// Reads an `i8` under the number representation of the context.
    pub fn read_i8(&mut self) -> (r: Result<i8, EncodingError>)
        ensures
            reads(
                old(self).stream,
                final(self).stream,
                r,
                |v: i8| v as int,
                signed_parse(
                    old(self).stream.remaining(),
                    BitWidth::Bit8,
                    old(self).ctxt.settings.num_repr.num_encoding,
                    old(self).ctxt.settings.num_repr.endianness,
                ),
            ),
            final(self).ctxt == old(self).ctxt,
    {
        self.read_i8_with(
            self.ctxt.settings.num_repr.num_encoding,
            self.ctxt.settings.num_repr.endianness,
        )
    }

    /// Reads an `i8` in the given encoding and byte order.
    pub fn read_i8_with(&mut self, num_encoding: NumEncoding, endianness: Endianness) -> (r: Result<
        i8,
        EncodingError,
    >)
        ensures
            reads(
                old(self).stream,
                final(self).stream,
                r,
                |v: i8| v as int,
                signed_parse(
                    old(self).stream.remaining(),
                    BitWidth::Bit8,
                    num_encoding,
                    endianness,
                ),
            ),
            final(self).ctxt == old(self).ctxt,
    {
        proof {
            lemma_int_bounds();
        }
        match decode_signed(&mut self.stream, BitWidth::Bit8, num_encoding, endianness) {
            Ok(v) => Ok(v as i8),
            Err(e) => Err(e),
        }
    }

    /// Reads an `i16` under the number representation of the context.
    pub fn read_i16(&mut self) -> (r: Result<i16, EncodingError>)
        ensures
            reads(
                old(self).stream,
                final(self).stream,
                r,
                |v: i16| v as int,
                signed_parse(
                    old(self).stream.remaining(),
                    BitWidth::Bit16,
                    old(self).ctxt.settings.num_repr.num_encoding,
                    old(self).ctxt.settings.num_repr.endianness,
                ),
            ),
            final(self).ctxt == old(self).ctxt,
    {
        self.read_i16_with(
            self.ctxt.settings.num_repr.num_encoding,
            self.ctxt.settings.num_repr.endianness,
        )
    }

    /// Reads an `i16` in the given encoding and byte order.
    pub fn read_i16_with(&mut self, num_encoding: NumEncoding, endianness: Endianness) -> (r: Result<
        i16,
        EncodingError,
    >)
        ensures
            reads(
                old(self).stream,
                final(self).stream,
                r,
                |v: i16| v as int,
                signed_parse(
                    old(self).stream.remaining(),
                    BitWidth::Bit16,
                    num_encoding,
                    endianness,
                ),
            ),
            final(self).ctxt == old(self).ctxt,
    {
        proof {
            lemma_int_bounds();
        }
        match decode_signed(&mut self.stream, BitWidth::Bit16, num_encoding, endianness) {
            Ok(v) => Ok(v as i16),
            Err(e) => Err(e),
        }
    }

    /// Reads an `i32` under the number representation of the context.
    pub fn read_i32(&mut self) -> (r: Result<i32, EncodingError>)
        ensures
            reads(
                old(self).stream,
                final(self).stream,
                r,
                |v: i32| v as int,
                signed_parse(
                    old(self).stream.remaining(),
                    BitWidth::Bit32,
                    old(self).ctxt.settings.num_repr.num_encoding,
                    old(self).ctxt.settings.num_repr.endianness,
                ),
            ),
            final(self).ctxt == old(self).ctxt,
    {
        self.read_i32_with(
            self.ctxt.settings.num_repr.num_encoding,
            self.ctxt.settings.num_repr.endianness,
        )
    }

    /// Reads an `i32` in the given encoding and byte order.
    pub fn read_i32_with(&mut self, num_encoding: NumEncoding, endianness: Endianness) -> (r: Result<
        i32,
        EncodingError,
    >)
        ensures
            reads(
                old(self).stream,
                final(self).stream,
                r,
                |v: i32| v as int,
                signed_parse(
                    old(self).stream.remaining(),
                    BitWidth::Bit32,
                    num_encoding,
                    endianness,
                ),
            ),
            final(self).ctxt == old(self).ctxt,
    {
        proof {
            lemma_int_bounds();
        }
        match decode_signed(&mut self.stream, BitWidth::Bit32, num_encoding, endianness) {
            Ok(v) => Ok(v as i32),
            Err(e) => Err(e),
        }
    }

    /// Reads an `i64` under the number representation of the context.
    pub fn read_i64(&mut self) -> (r: Result<i64, EncodingError>)
        ensures
            reads(
                old(self).stream,
                final(self).stream,
                r,
                |v: i64| v as int,
                signed_parse(
                    old(self).stream.remaining(),
                    BitWidth::Bit64,
                    old(self).ctxt.settings.num_repr.num_encoding,
                    old(self).ctxt.settings.num_repr.endianness,
                ),
            ),
            final(self).ctxt == old(self).ctxt,
    {
        self.read_i64_with(
            self.ctxt.settings.num_repr.num_encoding,
            self.ctxt.settings.num_repr.endianness,
        )
    }

    /// Reads an `i64` in the given encoding and byte order.
    pub fn read_i64_with(&mut self, num_encoding: NumEncoding, endianness: Endianness) -> (r: Result<
        i64,
        EncodingError,
    >)
        ensures
            reads(
                old(self).stream,
                final(self).stream,
                r,
                |v: i64| v as int,
                signed_parse(
                    old(self).stream.remaining(),
                    BitWidth::Bit64,
                    num_encoding,
                    endianness,
                ),
            ),
            final(self).ctxt == old(self).ctxt,
    {
        proof {
            lemma_int_bounds();
        }
        match decode_signed(&mut self.stream, BitWidth::Bit64, num_encoding, endianness) {
            Ok(v) => Ok(v as i64),
            Err(e) => Err(e),
        }
    }

    /// Reads an `i128` under the number representation of the context.
    pub fn read_i128(&mut self) -> (r: Result<i128, EncodingError>)
        ensures
            reads(
                old(self).stream,
                final(self).stream,
                r,
                |v: i128| v as int,
                signed_parse(
                    old(self).stream.remaining(),
                    BitWidth::Bit128,
                    old(self).ctxt.settings.num_repr.num_encoding,
                    old(self).ctxt.settings.num_repr.endianness,
                ),
            ),
            final(self).ctxt == old(self).ctxt,
    {
        self.read_i128_with(
            self.ctxt.settings.num_repr.num_encoding,
            self.ctxt.settings.num_repr.endianness,
        )
    }

    /// Reads an `i128` in the given encoding and byte order.
    pub fn read_i128_with(&mut self, num_encoding: NumEncoding, endianness: Endianness) -> (r: Result<
        i128,
        EncodingError,
    >)
        ensures
            reads(
                old(self).stream,
                final(self).stream,
                r,
                |v: i128| v as int,
                signed_parse(
                    old(self).stream.remaining(),
                    BitWidth::Bit128,
                    num_encoding,
                    endianness,
                ),
            ),
            final(self).ctxt == old(self).ctxt,
    {
        proof {
            lemma_int_bounds();
        }
        match decode_signed(&mut self.stream, BitWidth::Bit128, num_encoding, endianness) {
            Ok(v) => Ok(v),
            Err(e) => Err(e),
        }
    }

}

} // verus!
