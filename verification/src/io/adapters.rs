//! The adapters that the codec itself uses: a sink that keeps nothing, a
//! writer that counts, and a stream with a budget.

use vstd::prelude::*;
use crate::error::EncodingError;
use crate::io::Capacity;
use crate::io::Read;
use crate::io::Write;

verus! {

/// A writer that takes every byte and stores none. It serves to measure how
/// long an encoding is.
pub struct Zero {
    taken: Ghost<Seq<u8>>,
}

impl Zero {
    /// A sink that has taken nothing yet.
    pub fn new() -> (r: Self)
        ensures
            r.written() == Seq::<u8>::empty(),
    {
        Zero { taken: Ghost(Seq::empty()) }
    }
}

impl Write for Zero {
    closed spec fn written(&self) -> Seq<u8> {
        self.taken@
    }

    open spec fn capacity(&self) -> Capacity {
        Capacity::Unlimited
    }

    fn write(&mut self, buf: &[u8]) -> (r: Result<(), EncodingError>) {
        self.taken = Ghost(self.taken@ + buf@);
        Ok(())
    }
}

/// The smaller of a count and `usize::MAX`.
pub open spec fn saturated(n: nat) -> usize {
    if n <= usize::MAX {
        n as usize
    } else {
        usize::MAX
    }
}

/// A writer that counts the bytes that pass through it to the writer it wraps.
/// The count stops at `usize::MAX`.
pub struct SizeTrack<T: Write> {
    /// The writer that is wrapped.
    pub inner: T,
    /// How many bytes have passed through, at most `usize::MAX`.
    pub size: usize,
}

impl<T: Write> SizeTrack<T> {
    /// Wraps `inner`, with the count at zero.
    pub fn new(inner: T) -> (r: Self)
        ensures
            r == (SizeTrack { inner, size: 0 }),
    {
        SizeTrack { inner, size: 0 }
    }

    /// Returns how many bytes have passed through, or `usize::MAX` if they
    /// were more than that.
    pub fn size_written(&self) -> (r: usize)
        ensures
            r == self.size,
    {
        self.size
    }

    /// Gives the wrapped writer back.
    pub fn into_inner(self) -> (r: T)
        ensures
            r == self.inner,
    {
        self.inner
    }
}

impl<T: Write> Write for SizeTrack<T> {
    open spec fn written(&self) -> Seq<u8> {
        self.inner.written()
    }

    open spec fn capacity(&self) -> Capacity {
        self.inner.capacity()
    }

    fn write(&mut self, buf: &[u8]) -> (r: Result<(), EncodingError>)
        ensures
            r is Ok ==> final(self).size == saturated(old(self).size as nat + buf@.len()),
            r is Err ==> final(self).size == old(self).size,
    {
        let n = buf.len();
        match self.inner.write(buf) {
            Ok(()) => {
                let size = if n <= usize::MAX - self.size {
                    self.size + n
                } else {
                    usize::MAX
                };
                self.size = size;
                Ok(())
            },
            Err(e) => Err(e),
        }
    }
}

/// The smaller of two counts.
pub open spec fn least(a: nat, b: nat) -> nat {
    if a <= b {
        a
    } else {
        b
    }
}

/// A stream with a budget: so many bytes may be written through it and so
/// many read, and no more. A transfer over the budget fails with
/// `UnexpectedEnd` and reaches the wrapped stream not at all.
pub struct SizeLimit<T> {
    /// The stream that is wrapped.
    pub inner: T,
    /// How many more bytes may be written.
    pub write_budget: usize,
    /// How many more bytes may be read.
    pub read_budget: usize,
}

impl<T> SizeLimit<T> {
    /// Wraps `inner` with the given budgets.
    pub fn new(inner: T, write_limit: usize, read_limit: usize) -> (r: Self)
        ensures
            r == (SizeLimit { inner, write_budget: write_limit, read_budget: read_limit }),
    {
        SizeLimit { inner, write_budget: write_limit, read_budget: read_limit }
    }

    /// Returns how many more bytes may be written.
    pub fn remaining_writable(&self) -> (r: usize)
        ensures
            r == self.write_budget,
    {
        self.write_budget
    }

    /// Returns how many more bytes may be read.
    pub fn remaining_readable(&self) -> (r: usize)
        ensures
            r == self.read_budget,
    {
        self.read_budget
    }

    /// Gives the wrapped stream back.
    pub fn into_inner(self) -> (r: T)
        ensures
            r == self.inner,
    {
        self.inner
    }
}

impl<T: Read> SizeLimit<T> {
    /// The bytes of the wrapped reader that the budget still covers.
    pub open spec fn within_budget(&self) -> Seq<u8> {
        self.inner.remaining().take(
            least(self.read_budget as nat, self.inner.remaining().len()) as int,
        )
    }
}

impl<T: Write> Write for SizeLimit<T> {
    open spec fn written(&self) -> Seq<u8> {
        self.inner.written()
    }

    open spec fn capacity(&self) -> Capacity {
        match self.inner.capacity() {
            Capacity::Unknown => Capacity::Unknown,
            Capacity::Unlimited => Capacity::Bytes(self.write_budget as nat),
            Capacity::Bytes(k) => Capacity::Bytes(least(k, self.write_budget as nat)),
        }
    }

    fn write(&mut self, buf: &[u8]) -> (r: Result<(), EncodingError>)
        ensures
            r is Ok ==> final(self).write_budget == old(self).write_budget - buf@.len(),
            r is Err ==> final(self).write_budget == old(self).write_budget,
            final(self).read_budget == old(self).read_budget,
    {
        let n = buf.len();
        if n > self.write_budget {
            return Err(EncodingError::UnexpectedEnd);
        }
        match self.inner.write(buf) {
            Ok(()) => {
                self.write_budget = self.write_budget - n;
                Ok(())
            },
            Err(e) => Err(e),
        }
    }
}

impl<T: Read> Read for SizeLimit<T> {
    open spec fn remaining(&self) -> Seq<u8> {
        self.within_budget()
    }

    open spec fn reliable(&self) -> bool {
        self.inner.reliable()
    }

    open spec fn foresees(&self) -> bool {
        false
    }

    /// A reader on a budget shows nothing ahead: what it may still hand out
    /// is known only as it is read.
    fn ahead(&self) -> (r: Option<&[u8]>) {
        None
    }

    fn read(&mut self, buf: &mut [u8]) -> (r: Result<(), EncodingError>)
        ensures
            r is Ok ==> final(self).read_budget == old(self).read_budget - old(buf)@.len(),
            r is Ok ==> final(self).inner.remaining() == old(self).inner.remaining().skip(
                old(buf)@.len() as int,
            ),
            r is Err && old(self).inner.reliable() ==> final(self).inner.remaining() == old(
                self,
            ).inner.remaining(),
            r is Err ==> final(self).read_budget == old(self).read_budget,
            final(self).write_budget == old(self).write_budget,
    {
        let n = buf.len();
        if n > self.read_budget {
            return Err(EncodingError::UnexpectedEnd);
        }
        match self.inner.read(buf) {
            Ok(()) => {
                self.read_budget = self.read_budget - n;
                proof {
                    let before = old(self).inner.remaining();
                    let cut = least(old(self).read_budget as nat, before.len());
                    assert(before.take(cut as int).take(n as int) =~= before.take(n as int));
                    assert(self.within_budget() =~= old(self).within_budget().skip(n as int));
                }
                Ok(())
            },
            Err(e) => Err(e),
        }
    }
}

} // verus!
