//! Byte streams as the codec sees them: a writer that takes all of a buffer
//! or fails, a reader that fills all of a buffer or fails, a reader that can
//! lend its bytes, and a seeker. With them come the adapters that the codec
//! itself uses and readers and writers over memory.

pub mod adapters;
pub mod memory;

pub use adapters::SizeLimit;
pub use adapters::SizeTrack;
pub use adapters::Zero;
pub use memory::Slice;
pub use memory::SliceMut;

use vstd::prelude::*;
use crate::error::EncodingError;

verus! {

/// How many more bytes a writer will take.
pub enum Capacity {
    /// Not known in advance: a write may fail for reasons of the stream's own.
    Unknown,
    /// Every write succeeds.
    Unlimited,
    /// Exactly this many more bytes are taken; a longer write fails with
    /// `UnexpectedEnd` and changes nothing.
    Bytes(nat),
}

impl Capacity {
    /// Whether a write of `n` bytes is sure to succeed.
    pub open spec fn takes(self, n: nat) -> bool {
        match self {
            Capacity::Unknown => false,
            Capacity::Unlimited => true,
            Capacity::Bytes(k) => n <= k,
        }
    }

    /// Whether a write of `n` bytes is sure to fail.
    pub open spec fn refuses(self, n: nat) -> bool {
        self matches Capacity::Bytes(k) && n > k
    }

    /// The capacity left after `n` bytes were written.
    pub open spec fn after(self, n: nat) -> Capacity {
        match self {
            Capacity::Unknown => Capacity::Unknown,
            Capacity::Unlimited => Capacity::Unlimited,
            Capacity::Bytes(k) => Capacity::Bytes((k - n) as nat),
        }
    }

    /// Whether `n` bytes can have been written: they were not refused.
    pub open spec fn admits(self, n: nat) -> bool {
        !self.refuses(n)
    }
}

/// A sink of bytes. A write takes the whole buffer or fails and takes nothing.
pub trait Write {
    /// Every byte this writer has taken since it was made.
    spec fn written(&self) -> Seq<u8>;

    /// How many more bytes this writer will take.
    spec fn capacity(&self) -> Capacity;

    /// Writes all of `buf`. On success the bytes follow what was written
    /// before; on failure nothing was written. Where the capacity is known,
    /// it decides the outcome.
    fn write(&mut self, buf: &[u8]) -> (r: Result<(), EncodingError>)
        ensures
            r is Ok ==> final(self).written() == old(self).written() + buf@,
            r is Ok ==> final(self).capacity() == old(self).capacity().after(buf@.len()),
            r is Err ==> final(self).written() == old(self).written(),
            r is Err ==> final(self).capacity() == old(self).capacity(),
            old(self).capacity().takes(buf@.len()) ==> r is Ok,
            old(self).capacity().refuses(buf@.len()) ==> r == Err::<(), EncodingError>(
                EncodingError::UnexpectedEnd,
            ),
    ;
}

/// A source of bytes. A read fills the whole buffer or fails.
pub trait Read {
    /// The bytes that are still to be read, in order.
    spec fn remaining(&self) -> Seq<u8>;

    /// Whether a read fails only for want of bytes, and then with
    /// `UnexpectedEnd` and without consuming any.
    spec fn reliable(&self) -> bool;

    /// Whether the reader can show what is left before it is read. A
    /// reader over bytes in memory can; one over a source that it cannot
    /// look into cannot.
    spec fn foresees(&self) -> bool;

    /// All that is left, with nothing consumed, where the reader can show
    /// it.
    fn ahead(&self) -> (r: Option<&[u8]>)
        ensures
            r is Some == self.foresees(),
            r matches Some(bytes) ==> bytes@ == self.remaining(),
    ;

    /// Fills all of `buf` with the next bytes of the stream.
    fn read(&mut self, buf: &mut [u8]) -> (r: Result<(), EncodingError>)
        ensures
            final(buf)@.len() == old(buf)@.len(),
            final(self).reliable() == old(self).reliable(),
            r is Ok ==> old(buf)@.len() <= old(self).remaining().len(),
            r is Ok ==> final(buf)@ == old(self).remaining().take(old(buf)@.len() as int),
            r is Ok ==> final(self).remaining() == old(self).remaining().skip(
                old(buf)@.len() as int,
            ),
            old(self).reliable() && old(buf)@.len() <= old(self).remaining().len() ==> r is Ok,
            old(self).reliable() && r is Err ==> r == Err::<(), EncodingError>(
                EncodingError::UnexpectedEnd,
            ) && final(self).remaining() == old(self).remaining(),
    ;
}

/// A reader over data that outlives it, which can hand out references into
/// that data in place of copies.
pub trait BorrowRead<'data>: Read {
    /// The next `len` bytes, without consuming them.
    fn peek(&self, len: usize) -> (r: Result<&'data [u8], EncodingError>)
        ensures
            r matches Ok(bytes) ==> len <= self.remaining().len() && bytes@
                == self.remaining().take(len as int),
            self.reliable() && len <= self.remaining().len() ==> r is Ok,
            self.reliable() && r is Err ==> r == Err::<&'data [u8], EncodingError>(
                EncodingError::UnexpectedEnd,
            ),
    ;

    /// The next `len` bytes, consumed but not copied.
    fn borrow_read(&mut self, len: usize) -> (r: Result<&'data [u8], EncodingError>)
        ensures
            final(self).reliable() == old(self).reliable(),
            r matches Ok(bytes) ==> len <= old(self).remaining().len() && bytes@ == old(
                self,
            ).remaining().take(len as int) && final(self).remaining() == old(
                self,
            ).remaining().skip(len as int),
            old(self).reliable() && len <= old(self).remaining().len() ==> r is Ok,
            old(self).reliable() && r is Err ==> r == Err::<&'data [u8], EncodingError>(
                EncodingError::UnexpectedEnd,
            ) && final(self).remaining() == old(self).remaining(),
    ;
}

/// Where to seek to.
#[derive(Clone, Copy, Debug, PartialEq, Eq, Structural)]
pub enum SeekFrom {
    /// So many bytes after the start of the stream.
    Start(usize),
    /// So many bytes after the end of the stream (negative: before it).
    End(isize),
    /// So many bytes after the current position (negative: before it).
    Current(isize),
}

impl SeekFrom {
    /// The seek that moves nothing and so reports the current position.
    pub fn position() -> (r: SeekFrom)
        ensures
            r == SeekFrom::Current(0),
    {
        SeekFrom::Current(0)
    }

    /// The position that this seek asks for, in a stream that stands at
    /// `position` and is `extent` bytes long.
    pub open spec fn target(self, position: nat, extent: nat) -> int {
        match self {
            SeekFrom::Start(n) => n as int,
            SeekFrom::End(n) => extent + n,
            SeekFrom::Current(n) => position + n,
        }
    }
}

/// A stream whose position can be moved.
pub trait Seek {
    /// The current position, in bytes from the start.
    spec fn position(&self) -> nat;

    /// The length of the stream.
    spec fn extent(&self) -> nat;

    /// Whether a seek fails only where its target lies outside the stream,
    /// and succeeds everywhere else.
    spec fn seeks_freely(&self) -> bool;

    /// Moves to the position that `seek` asks for and returns it. A failed
    /// seek moves nothing.
    fn seek(&mut self, seek: SeekFrom) -> (r: Result<usize, EncodingError>)
        ensures
            final(self).extent() == old(self).extent(),
            final(self).seeks_freely() == old(self).seeks_freely(),
            r matches Ok(p) ==> p == seek.target(old(self).position(), old(self).extent())
                && final(self).position() == p,
            r is Err ==> final(self).position() == old(self).position(),
            old(self).seeks_freely() ==> (r is Ok <==> 0 <= seek.target(
                old(self).position(),
                old(self).extent(),
            ) <= old(self).extent()),
    ;
}

} // verus!
