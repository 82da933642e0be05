//! The codecs of the primitive types, of strings, and of the containers that
//! are made of them.

use vstd::prelude::*;
use crate::codec::Decode;
use crate::codec::Encode;
use crate::codec::Image;
use crate::context::State;
use crate::encoder::read::bool_parse;
use crate::encoder::read::isize_parse;
use crate::encoder::read::size_parse;
use crate::encoder::read::str_parse;
use crate::encoder::write::bool_image;
use crate::encoder::write::isize_image;
use crate::encoder::write::size_image;
use crate::encoder::write::str_image;
use crate::encoder::Encoder;
use crate::error::EncodingError;
use crate::io::Read;
use crate::io::Write;
use crate::settings::BitWidth;
use crate::wire::number::remap;
use crate::wire::number::signed_bytes;
use crate::wire::number::signed_parse;
use crate::wire::number::unsigned_bytes;
use crate::wire::number::unsigned_parse;
use crate::wire::number::Parsed;
use crate::wire::text::char_bytes;
use crate::wire::text::char_parse;

verus! {

impl Encode for u8 {
    open spec fn image(&self, ctxt: State) -> Result<Image, EncodingError> {
        Ok(
            Image {
                bytes: unsigned_bytes(
                    *self as nat,
                    BitWidth::Bit8,
                    ctxt.settings.num_repr.num_encoding,
                    ctxt.settings.num_repr.endianness,
                ),
                state: ctxt,
            },
        )
    }

    proof fn lemma_image_keeps_settings(&self, ctxt: State) {
    }

    fn encode<'a, W: Write, U>(&self, encoder: &mut Encoder<'a, W, U>) -> (r: Result<
        (),
        EncodingError,
    >) {
        encoder.write_u8(*self)
    }
}

impl Decode for u8 {
    type Model = u8;

    open spec fn model(&self) -> u8 {
        *self
    }

    open spec fn parse(ctxt: State, s: Seq<u8>) -> Result<Parsed<u8>, EncodingError> {
        remap(
            unsigned_parse(
                s,
                BitWidth::Bit8,
                ctxt.settings.num_repr.num_encoding,
                ctxt.settings.num_repr.endianness,
            ),
            |v: nat| v as u8,
        )
    }

    open spec fn state_after(ctxt: State, s: Seq<u8>) -> State {
        ctxt
    }

    proof fn lemma_parse_keeps_settings(ctxt: State, s: Seq<u8>) {
    }

    fn decode<'a, R: Read, U>(decoder: &mut Encoder<'a, R, U>) -> (r: Result<Self, EncodingError>) {
        decoder.read_u8()
    }
}

impl Encode for u16 {
    open spec fn image(&self, ctxt: State) -> Result<Image, EncodingError> {
        Ok(
            Image {
                bytes: unsigned_bytes(
                    *self as nat,
                    BitWidth::Bit16,
                    ctxt.settings.num_repr.num_encoding,
                    ctxt.settings.num_repr.endianness,
                ),
                state: ctxt,
            },
        )
    }

    proof fn lemma_image_keeps_settings(&self, ctxt: State) {
    }

    fn encode<'a, W: Write, U>(&self, encoder: &mut Encoder<'a, W, U>) -> (r: Result<
        (),
        EncodingError,
    >) {
        encoder.write_u16(*self)
    }
}

impl Decode for u16 {
    type Model = u16;

    open spec fn model(&self) -> u16 {
        *self
    }

    open spec fn parse(ctxt: State, s: Seq<u8>) -> Result<Parsed<u16>, EncodingError> {
        remap(
            unsigned_parse(
                s,
                BitWidth::Bit16,
                ctxt.settings.num_repr.num_encoding,
                ctxt.settings.num_repr.endianness,
            ),
            |v: nat| v as u16,
        )
    }

    open spec fn state_after(ctxt: State, s: Seq<u8>) -> State {
        ctxt
    }

    proof fn lemma_parse_keeps_settings(ctxt: State, s: Seq<u8>) {
    }

    fn decode<'a, R: Read, U>(decoder: &mut Encoder<'a, R, U>) -> (r: Result<Self, EncodingError>) {
        decoder.read_u16()
    }
}

impl Encode for u32 {
    open spec fn image(&self, ctxt: State) -> Result<Image, EncodingError> {
        Ok(
            Image {
                bytes: unsigned_bytes(
                    *self as nat,
                    BitWidth::Bit32,
                    ctxt.settings.num_repr.num_encoding,
                    ctxt.settings.num_repr.endianness,
                ),
                state: ctxt,
            },
        )
    }

    proof fn lemma_image_keeps_settings(&self, ctxt: State) {
    }

    fn encode<'a, W: Write, U>(&self, encoder: &mut Encoder<'a, W, U>) -> (r: Result<
        (),
        EncodingError,
    >) {
        encoder.write_u32(*self)
    }
}

impl Decode for u32 {
    type Model = u32;

    open spec fn model(&self) -> u32 {
        *self
    }

    open spec fn parse(ctxt: State, s: Seq<u8>) -> Result<Parsed<u32>, EncodingError> {
        remap(
            unsigned_parse(
                s,
                BitWidth::Bit32,
                ctxt.settings.num_repr.num_encoding,
                ctxt.settings.num_repr.endianness,
            ),
            |v: nat| v as u32,
        )
    }

    open spec fn state_after(ctxt: State, s: Seq<u8>) -> State {
        ctxt
    }

    proof fn lemma_parse_keeps_settings(ctxt: State, s: Seq<u8>) {
    }

    fn decode<'a, R: Read, U>(decoder: &mut Encoder<'a, R, U>) -> (r: Result<Self, EncodingError>) {
        decoder.read_u32()
    }
}

impl Encode for u64 {
    open spec fn image(&self, ctxt: State) -> Result<Image, EncodingError> {
        Ok(
            Image {
                bytes: unsigned_bytes(
                    *self as nat,
                    BitWidth::Bit64,
                    ctxt.settings.num_repr.num_encoding,
                    ctxt.settings.num_repr.endianness,
                ),
                state: ctxt,
            },
        )
    }

    proof fn lemma_image_keeps_settings(&self, ctxt: State) {
    }

    fn encode<'a, W: Write, U>(&self, encoder: &mut Encoder<'a, W, U>) -> (r: Result<
        (),
        EncodingError,
    >) {
        encoder.write_u64(*self)
    }
}

impl Decode for u64 {
    type Model = u64;

    open spec fn model(&self) -> u64 {
        *self
    }

    open spec fn parse(ctxt: State, s: Seq<u8>) -> Result<Parsed<u64>, EncodingError> {
        remap(
            unsigned_parse(
                s,
                BitWidth::Bit64,
                ctxt.settings.num_repr.num_encoding,
                ctxt.settings.num_repr.endianness,
            ),
            |v: nat| v as u64,
        )
    }

    open spec fn state_after(ctxt: State, s: Seq<u8>) -> State {
        ctxt
    }

    proof fn lemma_parse_keeps_settings(ctxt: State, s: Seq<u8>) {
    }

    fn decode<'a, R: Read, U>(decoder: &mut Encoder<'a, R, U>) -> (r: Result<Self, EncodingError>) {
        decoder.read_u64()
    }
}

impl Encode for u128 {
    open spec fn image(&self, ctxt: State) -> Result<Image, EncodingError> {
        Ok(
            Image {
                bytes: unsigned_bytes(
                    *self as nat,
                    BitWidth::Bit128,
                    ctxt.settings.num_repr.num_encoding,
                    ctxt.settings.num_repr.endianness,
                ),
                state: ctxt,
            },
        )
    }

    proof fn lemma_image_keeps_settings(&self, ctxt: State) {
    }

    fn encode<'a, W: Write, U>(&self, encoder: &mut Encoder<'a, W, U>) -> (r: Result<
        (),
        EncodingError,
    >) {
        encoder.write_u128(*self)
    }
}

impl Decode for u128 {
    type Model = u128;

    open spec fn model(&self) -> u128 {
        *self
    }

    open spec fn parse(ctxt: State, s: Seq<u8>) -> Result<Parsed<u128>, EncodingError> {
        remap(
            unsigned_parse(
                s,
                BitWidth::Bit128,
                ctxt.settings.num_repr.num_encoding,
                ctxt.settings.num_repr.endianness,
            ),
            |v: nat| v as u128,
        )
    }

    open spec fn state_after(ctxt: State, s: Seq<u8>) -> State {
        ctxt
    }

    proof fn lemma_parse_keeps_settings(ctxt: State, s: Seq<u8>) {
    }

    fn decode<'a, R: Read, U>(decoder: &mut Encoder<'a, R, U>) -> (r: Result<Self, EncodingError>) {
        decoder.read_u128()
    }
}

impl Encode for i8 {
    open spec fn image(&self, ctxt: State) -> Result<Image, EncodingError> {
        Ok(
            Image {
                bytes: signed_bytes(
                    *self as int,
                    BitWidth::Bit8,
                    ctxt.settings.num_repr.num_encoding,
                    ctxt.settings.num_repr.endianness,
                ),
                state: ctxt,
            },
        )
    }

    proof fn lemma_image_keeps_settings(&self, ctxt: State) {
    }

    fn encode<'a, W: Write, U>(&self, encoder: &mut Encoder<'a, W, U>) -> (r: Result<
        (),
        EncodingError,
    >) {
        encoder.write_i8(*self)
    }
}

impl Decode for i8 {
    type Model = i8;

    open spec fn model(&self) -> i8 {
        *self
    }

    open spec fn parse(ctxt: State, s: Seq<u8>) -> Result<Parsed<i8>, EncodingError> {
        remap(
            signed_parse(
                s,
                BitWidth::Bit8,
                ctxt.settings.num_repr.num_encoding,
                ctxt.settings.num_repr.endianness,
            ),
            |v: int| v as i8,
        )
    }

    open spec fn state_after(ctxt: State, s: Seq<u8>) -> State {
        ctxt
    }

    proof fn lemma_parse_keeps_settings(ctxt: State, s: Seq<u8>) {
    }

    fn decode<'a, R: Read, U>(decoder: &mut Encoder<'a, R, U>) -> (r: Result<Self, EncodingError>) {
        decoder.read_i8()
    }
}

impl Encode for i16 {
    open spec fn image(&self, ctxt: State) -> Result<Image, EncodingError> {
        Ok(
            Image {
                bytes: signed_bytes(
                    *self as int,
                    BitWidth::Bit16,
                    ctxt.settings.num_repr.num_encoding,
                    ctxt.settings.num_repr.endianness,
                ),
                state: ctxt,
            },
        )
    }

    proof fn lemma_image_keeps_settings(&self, ctxt: State) {
    }

    fn encode<'a, W: Write, U>(&self, encoder: &mut Encoder<'a, W, U>) -> (r: Result<
        (),
        EncodingError,
    >) {
        encoder.write_i16(*self)
    }
}

impl Decode for i16 {
    type Model = i16;

    open spec fn model(&self) -> i16 {
        *self
    }

    open spec fn parse(ctxt: State, s: Seq<u8>) -> Result<Parsed<i16>, EncodingError> {
        remap(
            signed_parse(
                s,
                BitWidth::Bit16,
                ctxt.settings.num_repr.num_encoding,
                ctxt.settings.num_repr.endianness,
            ),
            |v: int| v as i16,
        )
    }

    open spec fn state_after(ctxt: State, s: Seq<u8>) -> State {
        ctxt
    }

    proof fn lemma_parse_keeps_settings(ctxt: State, s: Seq<u8>) {
    }

    fn decode<'a, R: Read, U>(decoder: &mut Encoder<'a, R, U>) -> (r: Result<Self, EncodingError>) {
        decoder.read_i16()
    }
}

impl Encode for i32 {
    open spec fn image(&self, ctxt: State) -> Result<Image, EncodingError> {
        Ok(
            Image {
                bytes: signed_bytes(
                    *self as int,
                    BitWidth::Bit32,
                    ctxt.settings.num_repr.num_encoding,
                    ctxt.settings.num_repr.endianness,
                ),
                state: ctxt,
            },
        )
    }

    proof fn lemma_image_keeps_settings(&self, ctxt: State) {
    }

    fn encode<'a, W: Write, U>(&self, encoder: &mut Encoder<'a, W, U>) -> (r: Result<
        (),
        EncodingError,
    >) {
        encoder.write_i32(*self)
    }
}

impl Decode for i32 {
    type Model = i32;

    open spec fn model(&self) -> i32 {
        *self
    }

    open spec fn parse(ctxt: State, s: Seq<u8>) -> Result<Parsed<i32>, EncodingError> {
        remap(
            signed_parse(
                s,
                BitWidth::Bit32,
                ctxt.settings.num_repr.num_encoding,
                ctxt.settings.num_repr.endianness,
            ),
            |v: int| v as i32,
        )
    }

    open spec fn state_after(ctxt: State, s: Seq<u8>) -> State {
        ctxt
    }

    proof fn lemma_parse_keeps_settings(ctxt: State, s: Seq<u8>) {
    }

    fn decode<'a, R: Read, U>(decoder: &mut Encoder<'a, R, U>) -> (r: Result<Self, EncodingError>) {
        decoder.read_i32()
    }
}

impl Encode for i64 {
    open spec fn image(&self, ctxt: State) -> Result<Image, EncodingError> {
        Ok(
            Image {
                bytes: signed_bytes(
                    *self as int,
                    BitWidth::Bit64,
                    ctxt.settings.num_repr.num_encoding,
                    ctxt.settings.num_repr.endianness,
                ),
                state: ctxt,
            },
        )
    }

    proof fn lemma_image_keeps_settings(&self, ctxt: State) {
    }

    fn encode<'a, W: Write, U>(&self, encoder: &mut Encoder<'a, W, U>) -> (r: Result<
        (),
        EncodingError,
    >) {
        encoder.write_i64(*self)
    }
}

impl Decode for i64 {
    type Model = i64;

    open spec fn model(&self) -> i64 {
        *self
    }

    open spec fn parse(ctxt: State, s: Seq<u8>) -> Result<Parsed<i64>, EncodingError> {
        remap(
            signed_parse(
                s,
                BitWidth::Bit64,
                ctxt.settings.num_repr.num_encoding,
                ctxt.settings.num_repr.endianness,
            ),
            |v: int| v as i64,
        )
    }

    open spec fn state_after(ctxt: State, s: Seq<u8>) -> State {
        ctxt
    }

    proof fn lemma_parse_keeps_settings(ctxt: State, s: Seq<u8>) {
    }

    fn decode<'a, R: Read, U>(decoder: &mut Encoder<'a, R, U>) -> (r: Result<Self, EncodingError>) {
        decoder.read_i64()
    }
}

impl Encode for i128 {
    open spec fn image(&self, ctxt: State) -> Result<Image, EncodingError> {
        Ok(
            Image {
                bytes: signed_bytes(
                    *self as int,
                    BitWidth::Bit128,
                    ctxt.settings.num_repr.num_encoding,
                    ctxt.settings.num_repr.endianness,
                ),
                state: ctxt,
            },
        )
    }

    proof fn lemma_image_keeps_settings(&self, ctxt: State) {
    }

    fn encode<'a, W: Write, U>(&self, encoder: &mut Encoder<'a, W, U>) -> (r: Result<
        (),
        EncodingError,
    >) {
        encoder.write_i128(*self)
    }
}

impl Decode for i128 {
    type Model = i128;

    open spec fn model(&self) -> i128 {
        *self
    }

    open spec fn parse(ctxt: State, s: Seq<u8>) -> Result<Parsed<i128>, EncodingError> {
        remap(
            signed_parse(
                s,
                BitWidth::Bit128,
                ctxt.settings.num_repr.num_encoding,
                ctxt.settings.num_repr.endianness,
            ),
            |v: int| v as i128,
        )
    }

    open spec fn state_after(ctxt: State, s: Seq<u8>) -> State {
        ctxt
    }

    proof fn lemma_parse_keeps_settings(ctxt: State, s: Seq<u8>) {
    }

    fn decode<'a, R: Read, U>(decoder: &mut Encoder<'a, R, U>) -> (r: Result<Self, EncodingError>) {
        decoder.read_i128()
    }
}

impl Encode for usize {
    open spec fn image(&self, ctxt: State) -> Result<Image, EncodingError> {
        match size_image(ctxt, *self) {
            Ok(bytes) => Ok(Image { bytes, state: ctxt.without_size() }),
            Err(e) => Err(e),
        }
    }

    proof fn lemma_image_keeps_settings(&self, ctxt: State) {
    }

    /// Writes the size. Where the size channel holds it, nothing is
    /// written and the stream is not touched.
    fn encode<'a, W: Write, U>(&self, encoder: &mut Encoder<'a, W, U>) -> (r: Result<
        (),
        EncodingError,
    >)
        ensures
            old(encoder).ctxt.size_flatten == Some(*self) ==> r is Ok
                && final(encoder).stream == old(encoder).stream,
    {
        encoder.write_usize(*self)
    }
}

impl Decode for usize {
    type Model = usize;

    open spec fn model(&self) -> usize {
        *self
    }

    open spec fn parse(ctxt: State, s: Seq<u8>) -> Result<
        Parsed<usize>,
        EncodingError,
    > {
        size_parse(ctxt, s)
    }

    open spec fn state_after(ctxt: State, s: Seq<u8>) -> State {
        ctxt.without_size()
    }

    proof fn lemma_parse_keeps_settings(ctxt: State, s: Seq<u8>) {
    }

    /// Reads a size. An armed size channel is the size, and the stream is
    /// not touched.
    fn decode<'a, R: Read, U>(decoder: &mut Encoder<'a, R, U>) -> (r: Result<Self, EncodingError>)
        ensures
            old(decoder).ctxt.size_flatten matches Some(n) ==> r == Ok::<usize, EncodingError>(n)
                && final(decoder).stream == old(decoder).stream,
    {
        decoder.read_usize()
    }
}

impl Encode for isize {
    open spec fn image(&self, ctxt: State) -> Result<Image, EncodingError> {
        match isize_image(ctxt, *self) {
            Ok(bytes) => Ok(Image { bytes, state: ctxt }),
            Err(e) => Err(e),
        }
    }

    proof fn lemma_image_keeps_settings(&self, ctxt: State) {
    }

    fn encode<'a, W: Write, U>(&self, encoder: &mut Encoder<'a, W, U>) -> (r: Result<
        (),
        EncodingError,
    >) {
        encoder.write_isize(*self)
    }
}

impl Decode for isize {
    type Model = isize;

    open spec fn model(&self) -> isize {
        *self
    }

    open spec fn parse(ctxt: State, s: Seq<u8>) -> Result<
        Parsed<isize>,
        EncodingError,
    > {
        isize_parse(ctxt, s)
    }

    open spec fn state_after(ctxt: State, s: Seq<u8>) -> State {
        ctxt
    }

    proof fn lemma_parse_keeps_settings(ctxt: State, s: Seq<u8>) {
    }

    fn decode<'a, R: Read, U>(decoder: &mut Encoder<'a, R, U>) -> (r: Result<Self, EncodingError>) {
        decoder.read_isize()
    }
}

impl Encode for bool {
    open spec fn image(&self, ctxt: State) -> Result<Image, EncodingError> {
        match bool_image(ctxt, *self) {
            Ok(bytes) => Ok(Image { bytes, state: ctxt.without_bool() }),
            Err(e) => Err(e),
        }
    }

    proof fn lemma_image_keeps_settings(&self, ctxt: State) {
    }

    /// Writes the boolean. Where the boolean channel holds it, nothing is
    /// written and the stream is not touched.
    fn encode<'a, W: Write, U>(&self, encoder: &mut Encoder<'a, W, U>) -> (r: Result<
        (),
        EncodingError,
    >)
        ensures
            old(encoder).ctxt.bool_flatten == Some(*self) ==> r is Ok
                && final(encoder).stream == old(encoder).stream,
    {
        encoder.write_bool(*self)
    }
}

impl Decode for bool {
    type Model = bool;

    open spec fn model(&self) -> bool {
        *self
    }

    open spec fn parse(ctxt: State, s: Seq<u8>) -> Result<
        Parsed<bool>,
        EncodingError,
    > {
        bool_parse(ctxt, s)
    }

    open spec fn state_after(ctxt: State, s: Seq<u8>) -> State {
        ctxt.without_bool()
    }

    proof fn lemma_parse_keeps_settings(ctxt: State, s: Seq<u8>) {
    }

    /// Reads a boolean. An armed boolean channel is the boolean, and the
    /// stream is not touched.
    fn decode<'a, R: Read, U>(decoder: &mut Encoder<'a, R, U>) -> (r: Result<Self, EncodingError>)
        ensures
            old(decoder).ctxt.bool_flatten matches Some(b) ==> r == Ok::<bool, EncodingError>(b)
                && final(decoder).stream == old(decoder).stream,
    {
        decoder.read_bool()
    }
}

impl Encode for char {
    open spec fn image(&self, ctxt: State) -> Result<Image, EncodingError> {
        match Ok::<Seq<u8>, EncodingError>(char_bytes(*self, ctxt.settings.string_repr)) {
            Ok(bytes) => Ok(Image { bytes, state: ctxt }),
            Err(e) => Err(e),
        }
    }

    proof fn lemma_image_keeps_settings(&self, ctxt: State) {
    }

    fn encode<'a, W: Write, U>(&self, encoder: &mut Encoder<'a, W, U>) -> (r: Result<
        (),
        EncodingError,
    >) {
        encoder.write_char(*self)
    }
}

impl Decode for char {
    type Model = char;

    open spec fn model(&self) -> char {
        *self
    }

    open spec fn parse(ctxt: State, s: Seq<u8>) -> Result<
        Parsed<char>,
        EncodingError,
    > {
        char_parse(s, ctxt.settings.string_repr)
    }

    open spec fn state_after(ctxt: State, s: Seq<u8>) -> State {
        ctxt
    }

    proof fn lemma_parse_keeps_settings(ctxt: State, s: Seq<u8>) {
    }

    fn decode<'a, R: Read, U>(decoder: &mut Encoder<'a, R, U>) -> (r: Result<Self, EncodingError>) {
        decoder.read_char()
    }
}

impl Encode for String {
    open spec fn image(&self, ctxt: State) -> Result<Image, EncodingError> {
        match str_image(ctxt, self@) {
            Ok(bytes) => Ok(Image { bytes, state: ctxt.without_size() }),
            Err(e) => Err(e),
        }
    }

    proof fn lemma_image_keeps_settings(&self, ctxt: State) {
    }

    fn encode<'a, W: Write, U>(&self, encoder: &mut Encoder<'a, W, U>) -> (r: Result<
        (),
        EncodingError,
    >) {
        encoder.write_str(self.as_str())
    }
}

impl Decode for String {
    type Model = Seq<char>;

    open spec fn model(&self) -> Seq<char> {
        self@
    }

    open spec fn parse(ctxt: State, s: Seq<u8>) -> Result<
        Parsed<Seq<char>>,
        EncodingError,
    > {
        str_parse(ctxt, s)
    }

    open spec fn state_after(ctxt: State, s: Seq<u8>) -> State {
        ctxt.without_size()
    }

    proof fn lemma_parse_keeps_settings(ctxt: State, s: Seq<u8>) {
    }

    fn decode<'a, R: Read, U>(decoder: &mut Encoder<'a, R, U>) -> (r: Result<Self, EncodingError>) {
        decoder.read_str()
    }
}

impl<'x> Encode for &'x str {
    open spec fn image(&self, ctxt: State) -> Result<Image, EncodingError> {
        match str_image(ctxt, self@) {
            Ok(bytes) => Ok(Image { bytes, state: ctxt.without_size() }),
            Err(e) => Err(e),
        }
    }

    proof fn lemma_image_keeps_settings(&self, ctxt: State) {
    }

    fn encode<'a, W: Write, U>(&self, encoder: &mut Encoder<'a, W, U>) -> (r: Result<
        (),
        EncodingError,
    >) {
        encoder.write_str(*self)
    }
}

impl Encode for () {
    open spec fn image(&self, ctxt: State) -> Result<Image, EncodingError> {
        Ok(Image { bytes: Seq::empty(), state: ctxt })
    }

    proof fn lemma_image_keeps_settings(&self, ctxt: State) {
    }

    /// Writes nothing and succeeds, whatever the stream and the context.
    fn encode<'a, W: Write, U>(&self, encoder: &mut Encoder<'a, W, U>) -> (r: Result<
        (),
        EncodingError,
    >)
        ensures
            r is Ok,
            *final(encoder) == *old(encoder),
    {
        assert(encoder.stream.written() + Seq::<u8>::empty() =~= encoder.stream.written());
        Ok(())
    }
}

impl Decode for () {
    type Model = ();

    open spec fn model(&self) -> () {
        ()
    }

    open spec fn parse(ctxt: State, s: Seq<u8>) -> Result<Parsed<()>, EncodingError> {
        Ok(Parsed { value: (), len: 0 })
    }

    open spec fn state_after(ctxt: State, s: Seq<u8>) -> State {
        ctxt
    }

    proof fn lemma_parse_keeps_settings(ctxt: State, s: Seq<u8>) {
    }

    fn decode<'a, R: Read, U>(decoder: &mut Encoder<'a, R, U>) -> (r: Result<Self, EncodingError>) {
        assert(decoder.stream.remaining().skip(0) =~= decoder.stream.remaining());
        Ok(())
    }
}

impl<T> Encode for core::marker::PhantomData<T> {
    open spec fn image(&self, ctxt: State) -> Result<Image, EncodingError> {
        Ok(Image { bytes: Seq::empty(), state: ctxt })
    }

    proof fn lemma_image_keeps_settings(&self, ctxt: State) {
    }

    /// Writes nothing and succeeds: a marker holds no data.
    fn encode<'a, W: Write, U>(&self, encoder: &mut Encoder<'a, W, U>) -> (r: Result<
        (),
        EncodingError,
    >)
        ensures
            r is Ok,
            *final(encoder) == *old(encoder),
    {
        assert(encoder.stream.written() + Seq::<u8>::empty() =~= encoder.stream.written());
        Ok(())
    }
}

impl<T> Decode for core::marker::PhantomData<T> {
    type Model = ();

    open spec fn model(&self) -> () {
        ()
    }

    open spec fn parse(ctxt: State, s: Seq<u8>) -> Result<Parsed<()>, EncodingError> {
        Ok(Parsed { value: (), len: 0 })
    }

    open spec fn state_after(ctxt: State, s: Seq<u8>) -> State {
        ctxt
    }

    proof fn lemma_parse_keeps_settings(ctxt: State, s: Seq<u8>) {
    }

    /// Reads nothing and succeeds.
    fn decode<'a, R: Read, U>(decoder: &mut Encoder<'a, R, U>) -> (r: Result<Self, EncodingError>)
        ensures
            r is Ok,
            *final(decoder) == *old(decoder),
    {
        assert(decoder.stream.remaining().skip(0) =~= decoder.stream.remaining());
        Ok(core::marker::PhantomData)
    }
}

} // verus!
