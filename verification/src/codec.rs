//! What it means for a type to be encodable and decodable, and the entry
//! points that encode or decode one value.

use vstd::prelude::*;
use crate::context::Context;
use crate::context::State;
use crate::encoder::write::wrote_in_parts;
use crate::encoder::Encoder;
use crate::error::BorrowError;
use crate::error::EncodingError;
use crate::io::BorrowRead;
use crate::io::Read;
use crate::io::Seek;
use crate::io::Write;
use crate::wire::number::reads;
use crate::wire::number::Parsed;

verus! {

/// What encoding a value under some settings and channels calls for: the
/// bytes to write and the settings and channels to leave.
pub struct Image {
    pub bytes: Seq<u8>,
    pub state: State,
}

/// What an encode did to its writer, against what the value and the
/// context call for. Where they call for bytes, success means that just
/// those bytes follow what the writer held, and where the capacity of the
/// writer is known, it decides between success and `UnexpectedEnd`. Where
/// they call for an error, the encode failed, and with that very error on a
/// writer that takes everything; on another writer the stream may have
/// failed before the error was met.
pub open spec fn delivered<W: Write>(
    before: W,
    after: W,
    r: Result<(), EncodingError>,
    image: Result<Image, EncodingError>,
) -> bool {
    match image {
        Ok(image) => wrote_in_parts(before, after, r, image.bytes),
        Err(e) => r is Err && (before.capacity() is Unlimited ==> r == Err::<(), EncodingError>(e)),
    }
}

/// What an encode did, against what the value and the context call for.
/// Where they call for bytes, success means that just those bytes were
/// written and the context is the one called for, and where the capacity of
/// the writer is known, it decides between success and failure. Where they
/// call for an error, the encode failed, and with that very error on a
/// writer that takes everything; on another writer the stream may have
/// failed before the error was met.
pub open spec fn encoded<'a, W: Write, U>(
    before: Encoder<'a, W, U>,
    after: Encoder<'a, W, U>,
    r: Result<(), EncodingError>,
    image: Result<Image, EncodingError>,
) -> bool {
    &&& delivered(before.stream, after.stream, r, image)
    &&& image is Ok && r is Ok ==> after.ctxt.spec_state() == image->Ok_0.state
        && after.ctxt.user == before.ctxt.user
}

/// Writing `x` and then `y` in parts is writing `x + y` in parts.
pub proof fn lemma_parts_compose<W: Write>(
    a: W,
    b: W,
    c: W,
    r: Result<(), EncodingError>,
    x: Seq<u8>,
    y: Seq<u8>,
)
    requires
        wrote_in_parts(a, b, Ok(()), x),
        wrote_in_parts(b, c, r, y),
    ensures
        wrote_in_parts(a, c, r, x + y),
{
    assert(a.written() + x + y =~= a.written() + (x + y));
}

/// A type whose values can be written in their binary form.
pub trait Encode {
    /// The bytes that stand for the value under the context, and the context
    /// that the encoding leaves; or the error that the value meets. Being a
    /// function, it gives the same bytes for the same value and context.
    spec fn image(&self, state: State) -> Result<Image, EncodingError>;

    /// An encoding leaves the settings as they were.
    proof fn lemma_image_keeps_settings(&self, state: State)
        ensures
            self.image(state) matches Ok(image) ==> image.state.settings == state.settings,
    ;

    /// Writes the value. On success the settings of the encoder are as they
    /// were; after a failure nothing is promised of them.
    fn encode<'a, W: Write, U>(&self, encoder: &mut Encoder<'a, W, U>) -> (r: Result<
        (),
        EncodingError,
    >)
        ensures
            encoded(*old(encoder), *final(encoder), r, self.image(old(encoder).ctxt.spec_state())),
            r is Ok ==> final(encoder).ctxt.settings == old(encoder).ctxt.settings,
    ;
}

/// A type whose values can be read from their binary form.
pub trait Decode: Sized {
    /// What a value of the type is, mathematically.
    type Model;

    /// The mathematical value.
    spec fn model(&self) -> Self::Model;

    /// The value that the bytes `s` stand for under the context, and how
    /// many of them it takes; or the error that they meet.
    spec fn parse(state: State, s: Seq<u8>) -> Result<Parsed<Self::Model>, EncodingError>;

    /// The settings and channels that a decoding leaves.
    spec fn state_after(state: State, s: Seq<u8>) -> State;

    /// A decoding leaves the settings as they were.
    proof fn lemma_parse_keeps_settings(state: State, s: Seq<u8>)
        ensures
            Self::state_after(state, s).settings == state.settings,
    ;

    /// Reads a value. On success the settings of the decoder are as they
    /// were; after a failure nothing is promised of them.
    fn decode<'a, R: Read, U>(decoder: &mut Encoder<'a, R, U>) -> (r: Result<Self, EncodingError>)
        ensures
            reads(
                old(decoder).stream,
                final(decoder).stream,
                r,
                |v: Self| v.model(),
                Self::parse(old(decoder).ctxt.spec_state(), old(decoder).stream.remaining()),
            ),
            r is Ok ==> final(decoder).ctxt.spec_state() == Self::state_after(
                old(decoder).ctxt.spec_state(),
                old(decoder).stream.remaining(),
            ) && final(decoder).ctxt.user == old(decoder).ctxt.user,
            r is Ok ==> final(decoder).ctxt.settings == old(decoder).ctxt.settings,
    ;
}

/// What a read in place did, against what the bytes of the stream stand
/// for. A read that succeeds gives a value which, seen through `view`, is
/// the value that the bytes stand for, and consumes just the bytes of that
/// value. On a reliable stream the read fails with the very error of the
/// bytes where they stand for none; where they stand for a value, it
/// succeeds, unless the data lies at an address that the value cannot be
/// referenced at, which is an `AlignmentMismatch`.
pub open spec fn borrowed<R: Read, X, V>(
    before: R,
    after: R,
    r: Result<X, EncodingError>,
    view: spec_fn(X) -> V,
    expect: Result<Parsed<V>, EncodingError>,
) -> bool {
    &&& after.reliable() == before.reliable()
    &&& r matches Ok(x) ==> (expect matches Ok(p) && p.value == view(x) && p.len
        <= before.remaining().len() && after.remaining() == before.remaining().skip(p.len as int))
    &&& before.reliable() ==> match expect {
        Ok(_) => r is Ok || r == Err::<X, EncodingError>(
            EncodingError::BorrowError(BorrowError::AlignmentMismatch),
        ),
        Err(e) => r == Err::<X, EncodingError>(e),
    }
}

/// A type whose values can be read from their binary form as references into
/// the data of the stream, with no copy made.
pub trait BorrowDecode<'data>: Sized {
    /// What a value of the type is, mathematically.
    type Model;

    /// The mathematical value.
    spec fn model(&self) -> Self::Model;

    /// The value that the bytes `s` stand for under the state, and how many
    /// of them it takes; or the error that they meet.
    spec fn parse(state: State, s: Seq<u8>) -> Result<Parsed<Self::Model>, EncodingError>;

    /// The settings and channels that a decoding leaves.
    spec fn state_after(state: State, s: Seq<u8>) -> State;

    /// A decoding leaves the settings as they were.
    proof fn lemma_parse_keeps_settings(state: State, s: Seq<u8>)
        ensures
            Self::state_after(state, s).settings == state.settings,
    ;

    /// Reads a value in place. A value that is returned is the one that the
    /// bytes stand for, and just its bytes are consumed. On a reliable
    /// stream, bytes that stand for no value fail with their error, and
    /// bytes that stand for one give it unless they lie misaligned. On
    /// success the settings of the decoder are as they were. Data that
    /// cannot be referenced in place is a `BorrowError`: a caller can then
    /// fall back on a copying decode.
    fn borrow_decode<'a, R: BorrowRead<'data>, U>(decoder: &mut Encoder<'a, R, U>) -> (r: Result<
        Self,
        EncodingError,
    >)
        ensures
            borrowed(
                old(decoder).stream,
                final(decoder).stream,
                r,
                |v: Self| v.model(),
                Self::parse(old(decoder).ctxt.spec_state(), old(decoder).stream.remaining()),
            ),
            r is Ok ==> final(decoder).ctxt.spec_state() == Self::state_after(
                old(decoder).ctxt.spec_state(),
                old(decoder).stream.remaining(),
            ) && final(decoder).ctxt.user == old(decoder).ctxt.user,
            r is Ok ==> final(decoder).ctxt.settings == old(decoder).ctxt.settings,
    ;
}

/// A type whose values can be written to a stream that can seek. Every type
/// that can be written at all can.
pub trait SeekEncode {
    /// Writes the value. See [`Encode::encode`].
    fn seek_encode<'a, W: Write + Seek, U>(&self, encoder: &mut Encoder<'a, W, U>) -> (r: Result<
        (),
        EncodingError,
    >)
        ensures
            r is Ok ==> final(encoder).ctxt.settings == old(encoder).ctxt.settings,
    ;
}

/// A type whose values can be read from a stream that can seek. Every type
/// that can be read at all can.
pub trait SeekDecode: Sized {
    /// Reads a value. See [`Decode::decode`].
    fn seek_decode<'a, R: Read + Seek, U>(decoder: &mut Encoder<'a, R, U>) -> (r: Result<
        Self,
        EncodingError,
    >)
        ensures
            r is Ok ==> final(decoder).ctxt.settings == old(decoder).ctxt.settings,
    ;
}

/// A type whose values can be read in place from a stream that can seek.
/// Every type that can be read in place at all can.
pub trait SeekBorrowDecode<'data>: Sized {
    /// Reads a value in place. See [`BorrowDecode::borrow_decode`].
    fn seek_borrow_decode<'a, R: BorrowRead<'data> + Seek, U>(
        decoder: &mut Encoder<'a, R, U>,
    ) -> (r: Result<Self, EncodingError>)
        ensures
            r is Ok ==> final(decoder).ctxt.settings == old(decoder).ctxt.settings,
    ;
}

impl<T: Encode> SeekEncode for T {
    fn seek_encode<'a, W: Write + Seek, U>(&self, encoder: &mut Encoder<'a, W, U>) -> (r: Result<
        (),
        EncodingError,
    >)
        ensures
            encoded(*old(encoder), *final(encoder), r, self.image(old(encoder).ctxt.spec_state())),
    {
        self.encode(encoder)
    }
}

impl<T: Decode> SeekDecode for T {
    fn seek_decode<'a, R: Read + Seek, U>(decoder: &mut Encoder<'a, R, U>) -> (r: Result<
        Self,
        EncodingError,
    >)
        ensures
            reads(
                old(decoder).stream,
                final(decoder).stream,
                r,
                |v: Self| v.model(),
                Self::parse(old(decoder).ctxt.spec_state(), old(decoder).stream.remaining()),
            ),
    {
        Self::decode(decoder)
    }
}

impl<'data, T: BorrowDecode<'data>> SeekBorrowDecode<'data> for T {
    fn seek_borrow_decode<'a, R: BorrowRead<'data> + Seek, U>(
        decoder: &mut Encoder<'a, R, U>,
    ) -> (r: Result<Self, EncodingError>)
        ensures
            borrowed(
                old(decoder).stream,
                final(decoder).stream,
                r,
                |v: Self| v.model(),
                Self::parse(old(decoder).ctxt.spec_state(), old(decoder).stream.remaining()),
            ),
            r is Ok ==> final(decoder).ctxt.spec_state() == Self::state_after(
                old(decoder).ctxt.spec_state(),
                old(decoder).stream.remaining(),
            ) && final(decoder).ctxt.user == old(decoder).ctxt.user,
    {
        Self::borrow_decode(decoder)
    }
}

impl<'a, T: Write, U> Encoder<'a, T, U> {
    /// Writes `value` with this encoder: `value.encode(self)`.
    pub fn encode_value<V: Encode>(&mut self, value: V) -> (r: Result<(), EncodingError>)
        ensures
            encoded(*old(self), *final(self), r, value.image(old(self).ctxt.spec_state())),
            r is Ok ==> final(self).ctxt.settings == old(self).ctxt.settings,
    {
        value.encode(self)
    }
}

impl<'a, T: Read, U> Encoder<'a, T, U> {
    /// Reads a value with this decoder: `V::decode(self)`.
    pub fn decode_value<V: Decode>(&mut self) -> (r: Result<V, EncodingError>)
        ensures
            reads(
                old(self).stream,
                final(self).stream,
                r,
                |v: V| v.model(),
                V::parse(old(self).ctxt.spec_state(), old(self).stream.remaining()),
            ),
            r is Ok ==> final(self).ctxt.spec_state() == V::state_after(
                old(self).ctxt.spec_state(),
                old(self).stream.remaining(),
            ) && final(self).ctxt.user == old(self).ctxt.user,
            r is Ok ==> final(self).ctxt.settings == old(self).ctxt.settings,
    {
        V::decode(self)
    }
}

/// Writes `value` to `writer` under `context`, with an encoder made for the
/// purpose.
///
/// The encode fails where the value and the context call for an error, and
/// on a writer that takes everything with that very error. Where they call
/// for bytes and the capacity of the writer is known, it succeeds if the
/// writer takes that many bytes, and fails with `UnexpectedEnd` if it does
/// not. The writer is given up with the call: [`encode_keeping`] hands it
/// back, and says what it then holds.
pub fn encode_with<'a, T: Write, U, V: Encode>(writer: T, context: Context<'a, U>, value: V) -> (r:
    Result<(), EncodingError>)
    ensures
        match value.image(context.spec_state()) {
            Ok(image) => (writer.capacity().takes(image.bytes.len()) ==> r is Ok) && (
            writer.capacity().refuses(image.bytes.len()) ==> r == Err::<(), EncodingError>(
                EncodingError::UnexpectedEnd,
            )),
            Err(e) => r is Err && (writer.capacity() is Unlimited ==> r == Err::<(), EncodingError>(
                e,
            )),
        },
{
    encode_keeping(writer, context, value).0
}

/// Writes `value` to `writer` under `context`, with an encoder made for the
/// purpose, and hands the writer back with the result.
///
/// What comes back is what [`delivered`] says: the bytes that the writer
/// holds after a success are those it held, followed by the bytes of the
/// value.
pub fn encode_keeping<'a, T: Write, U, V: Encode>(
    writer: T,
    context: Context<'a, U>,
    value: V,
) -> (r: (Result<(), EncodingError>, T))
    ensures
        delivered(writer, r.1, r.0, value.image(context.spec_state())),
{
    let mut encoder = Encoder::new(writer, context);
    let outcome = value.encode(&mut encoder);
    let (stream, _) = encoder.finish();
    (outcome, stream)
}

/// Reads a value from `reader` under `context`, with a decoder made for the
/// purpose, and hands the reader back with the result.
///
/// A value that is returned is the one that the bytes of the reader stand
/// for, and just its bytes are consumed. On a reliable reader the decode
/// succeeds wherever the bytes stand for a value, and fails with the very
/// error of the bytes otherwise.
pub fn decode_keeping<'a, T: Read, U, V: Decode>(reader: T, context: Context<'a, U>) -> (r: (
    Result<V, EncodingError>,
    T,
))
    ensures
        reads(
            reader,
            r.1,
            r.0,
            |v: V| v.model(),
            V::parse(context.spec_state(), reader.remaining()),
        ),
{
    let mut decoder = Encoder::new(reader, context);
    let outcome = V::decode(&mut decoder);
    let (stream, _) = decoder.finish();
    (outcome, stream)
}

/// Reads a value from `reader` under `context`, with a decoder made for the
/// purpose.
///
/// A value that is returned is the one that the bytes of the reader stand
/// for. On a reliable reader the decode succeeds wherever the bytes stand
/// for a value, and fails with the very error of the bytes otherwise. The
/// reader is given up with the call: [`decode_keeping`] hands it back, and
/// says what is left in it.
pub fn decode_with<'a, T: Read, U, V: Decode>(reader: T, context: Context<'a, U>) -> (r: Result<
    V,
    EncodingError,
>)
    ensures
        r matches Ok(v) ==> V::parse(context.spec_state(), reader.remaining()) matches Ok(p) && p.value
            == v.model(),
        reader.reliable() ==> match V::parse(context.spec_state(), reader.remaining()) {
            Ok(_) => r is Ok,
            Err(e) => r == Err::<V, EncodingError>(e),
        },
{
    decode_keeping(reader, context).0
}

} // verus!
