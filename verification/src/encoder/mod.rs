//! The encoder: a stream and a context, and every primitive operation of the
//! codec on the two.

pub mod borrow;
pub mod read;
pub mod read_int;
pub mod seek;
pub mod write;
pub mod write_int;

use vstd::prelude::*;
use crate::context::Context;
use crate::error::EncodingError;
use crate::io::Write;

verus! {

/// A stream together with the context under which values are written to it
/// or read from it.
pub struct Encoder<'a, T, U> {
    /// The underlying stream.
    pub stream: T,
    /// The state.
    pub ctxt: Context<'a, U>,
}

/// What an attempt to write `bytes` in one piece did. Success appends just
/// those bytes; failure changes nothing. Where the capacity of the writer is
/// known, it decides the outcome.
pub open spec fn wrote<W: Write>(
    before: W,
    after: W,
    r: Result<(), EncodingError>,
    bytes: Seq<u8>,
) -> bool {
    &&& r is Ok ==> after.written() == before.written() + bytes && after.capacity()
        == before.capacity().after(bytes.len())
    &&& r is Err ==> after.written() == before.written() && after.capacity() == before.capacity()
    &&& before.capacity().takes(bytes.len()) ==> r is Ok
    &&& before.capacity().refuses(bytes.len()) ==> r == Err::<(), EncodingError>(
        EncodingError::UnexpectedEnd,
    )
}

impl<'a, T, U> Encoder<'a, T, U> {
    /// Wraps the given stream and context.
    pub fn new(stream: T, ctxt: Context<'a, U>) -> (r: Self)
        ensures
            r.stream == stream,
            r.ctxt == ctxt,
    {
        Encoder { stream, ctxt }
    }

    /// Puts `new` in the place of the stream and returns the stream that was there.
    pub fn swap_stream(&mut self, new: T) -> (r: T)
        ensures
            r == old(self).stream,
            final(self).stream == new,
            final(self).ctxt == old(self).ctxt,
    {
        let mut other = new;
        core::mem::swap(&mut self.stream, &mut other);
        other
    }

    /// Takes the encoder apart.
    pub fn finish(self) -> (r: (T, Context<'a, U>))
        ensures
            r.0 == self.stream,
            r.1 == self.ctxt,
    {
        (self.stream, self.ctxt)
    }
}

} // verus!
