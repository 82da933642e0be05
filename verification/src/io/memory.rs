//! Readers and writers over memory.

use vstd::prelude::*;
use vstd::slice::slice_subrange;
use crate::error::EncodingError;
use crate::io::BorrowRead;
use crate::io::Capacity;
use crate::io::Read;
use crate::io::Seek;
use crate::io::SeekFrom;
use crate::io::Write;

verus! {

/// Copies `src` over the first `src.len()` bytes of `dst`.
fn copy_into(dst: &mut [u8], src: &[u8])
    requires
        src@.len() <= old(dst)@.len(),
    ensures
        final(dst)@.len() == old(dst)@.len(),
        final(dst)@.take(src@.len() as int) == src@,
        final(dst)@.skip(src@.len() as int) == old(dst)@.skip(src@.len() as int),
{
    let n = src.len();
    let mut i: usize = 0;
    while i < n
        invariant
            n == src@.len(),
            n <= dst@.len(),
            dst@.len() == old(dst)@.len(),
            i <= n,
            forall|j: int| 0 <= j < i ==> dst@[j] == src@[j],
            forall|j: int| n <= j < dst@.len() ==> dst@[j] == old(dst)@[j],
        decreases n - i,
    {
        dst[i] = src[i];
        i += 1;
    }
    assert(dst@.take(n as int) =~= src@);
    assert(dst@.skip(n as int) =~= old(dst)@.skip(n as int));
}

/// The distance of a negative offset from zero.
pub fn magnitude(d: isize) -> (r: usize)
    requires
        d <= 0,
    ensures
        r == -d,
{
    if d == isize::MIN {
        isize::MAX as usize + 1
    } else {
        (-d) as usize
    }
}

/// A reader over a byte slice. It can lend its bytes and seek.
pub struct Slice<'data> {
    /// The whole of the data.
    pub data: &'data [u8],
    /// How many bytes have been read.
    pub pos: usize,
}

impl<'data> Slice<'data> {
    /// The position, brought back into the data where the field lies past it.
    pub open spec fn offset(&self) -> nat {
        if self.pos <= self.data@.len() {
            self.pos as nat
        } else {
            self.data@.len()
        }
    }

    /// The bytes from the position to the end of the data.
    pub open spec fn unread(&self) -> Seq<u8> {
        self.data@.skip(self.offset() as int)
    }

    /// A reader at the start of `data`.
    pub fn new(data: &'data [u8]) -> (r: Self)
        ensures
            r.data@ == data@,
            r.pos == 0,
            r.unread() == data@,
    {
        Slice { data, pos: 0 }
    }

    /// How many bytes have been read, never more than the data holds.
    pub fn consumed(&self) -> (r: usize)
        ensures
            r == self.offset(),
            r <= self.data@.len() <= usize::MAX,
    {
        if self.pos <= self.data.len() {
            self.pos
        } else {
            self.data.len()
        }
    }

    /// How many bytes are still to be read.
    pub fn available(&self) -> (r: usize)
        ensures
            r == self.unread().len(),
            r == self.data@.len() - self.offset(),
    {
        if self.pos <= self.data.len() {
            self.data.len() - self.pos
        } else {
            0
        }
    }
}

impl<'data> Read for Slice<'data> {
    open spec fn remaining(&self) -> Seq<u8> {
        self.unread()
    }

    open spec fn reliable(&self) -> bool {
        true
    }

    open spec fn foresees(&self) -> bool {
        true
    }

    fn ahead(&self) -> (r: Option<&[u8]>) {
        let here = self.consumed();
        let bytes = slice_subrange(self.data, here, self.data.len());
        assert(bytes@ =~= self.unread());
        Some(bytes)
    }

    fn read(&mut self, buf: &mut [u8]) -> (r: Result<(), EncodingError>)
        ensures
            final(self).data == old(self).data,
    {
        let n = buf.len();
        if n > self.available() {
            return Err(EncodingError::UnexpectedEnd);
        }
        let here = self.consumed();
        let src = slice_subrange(self.data, here, here + n);
        copy_into(buf, src);
        proof {
            assert(buf@.take(n as int) =~= buf@);
            assert(src@ =~= self.unread().take(n as int));
            assert(self.data@.skip(here + n) =~= self.unread().skip(n as int));
        }
        self.pos = here + n;
        Ok(())
    }
}

impl<'data> BorrowRead<'data> for Slice<'data> {
    fn peek(&self, len: usize) -> (r: Result<&'data [u8], EncodingError>) {
        if len > self.available() {
            return Err(EncodingError::UnexpectedEnd);
        }
        let here = self.consumed();
        let bytes = slice_subrange(self.data, here, here + len);
        assert(bytes@ =~= self.unread().take(len as int));
        Ok(bytes)
    }

    fn borrow_read(&mut self, len: usize) -> (r: Result<&'data [u8], EncodingError>)
        ensures
            final(self).data == old(self).data,
    {
        if len > self.available() {
            return Err(EncodingError::UnexpectedEnd);
        }
        let here = self.consumed();
        let bytes = slice_subrange(self.data, here, here + len);
        proof {
            assert(bytes@ =~= self.unread().take(len as int));
            assert(self.data@.skip(here + len) =~= self.unread().skip(len as int));
        }
        self.pos = here + len;
        Ok(bytes)
    }
}

impl<'data> Seek for Slice<'data> {
    open spec fn position(&self) -> nat {
        self.offset()
    }

    open spec fn extent(&self) -> nat {
        self.data@.len()
    }

    open spec fn seeks_freely(&self) -> bool {
        true
    }

    fn seek(&mut self, seek: SeekFrom) -> (r: Result<usize, EncodingError>)
        ensures
            final(self).data == old(self).data,
    {
        let len = self.data.len();
        let here = self.consumed();
        let target: Option<usize> = match seek {
            SeekFrom::Start(n) => if n <= len {
                Some(n)
            } else {
                None
            },
            SeekFrom::End(d) => if d <= 0 && magnitude(d) <= len {
                Some(len - magnitude(d))
            } else {
                None
            },
            SeekFrom::Current(d) => if d >= 0 {
                if d as usize <= len - here {
                    Some(here + d as usize)
                } else {
                    None
                }
            } else if magnitude(d) <= here {
                Some(here - magnitude(d))
            } else {
                None
            },
        };
        match target {
            Some(p) => {
                self.pos = p;
                Ok(p)
            },
            None => {
                self.pos = here;
                Err(EncodingError::UnexpectedEnd)
            },
        }
    }
}

/// A writer into a byte slice, which fills it from its start and fails once
/// it is full.
pub struct SliceMut<'data> {
    /// The whole of the buffer.
    pub data: &'data mut [u8],
    /// How many bytes have been written.
    pub pos: usize,
}

impl<'data> SliceMut<'data> {
    /// The position, brought back into the buffer where the field lies past it.
    pub open spec fn offset(&self) -> nat {
        if self.pos <= self.data@.len() {
            self.pos as nat
        } else {
            self.data@.len()
        }
    }

    /// The part of the buffer that has been written.
    pub open spec fn filled(&self) -> Seq<u8> {
        self.data@.take(self.offset() as int)
    }

    /// A writer at the start of `data`.
    pub fn new(data: &'data mut [u8]) -> (r: Self)
        ensures
            r.pos == 0,
            r.filled() == Seq::<u8>::empty(),
            r.data@.len() == old(data)@.len(),
    {
        let r = SliceMut { data, pos: 0 };
        assert(r.filled() =~= Seq::<u8>::empty());
        r
    }

    /// How many bytes have been written.
    pub fn len_written(&self) -> (r: usize)
        ensures
            r == self.offset(),
    {
        if self.pos <= self.data.len() {
            self.pos
        } else {
            self.data.len()
        }
    }
}

impl<'data> Write for SliceMut<'data> {
    open spec fn written(&self) -> Seq<u8> {
        self.filled()
    }

    open spec fn capacity(&self) -> Capacity {
        Capacity::Bytes((self.data@.len() - self.offset()) as nat)
    }

    fn write(&mut self, buf: &[u8]) -> (r: Result<(), EncodingError>) {
        let n = buf.len();
        let len = self.data.len();
        let here = self.len_written();
        if n > len - here {
            return Err(EncodingError::UnexpectedEnd);
        }
        let mut i: usize = 0;
        while i < n
            invariant
                n == buf@.len(),
                here + n <= self.data@.len(),
                self.data@.len() == old(self).data@.len(),
                self.data@.len() == len,
                self.pos == old(self).pos,
                here == old(self).offset(),
                i <= n,
                forall|j: int| 0 <= j < here ==> self.data@[j] == old(self).data@[j],
                forall|j: int| 0 <= j < i ==> self.data@[here + j] == buf@[j],
            decreases n - i,
        {
            self.data[here + i] = buf[i];
            i += 1;
        }
        self.pos = here + n;
        assert(self.filled() =~= old(self).filled() + buf@);
        Ok(())
    }
}

impl Write for Vec<u8> {
    open spec fn written(&self) -> Seq<u8> {
        self@
    }

    open spec fn capacity(&self) -> Capacity {
        Capacity::Unlimited
    }

    fn write(&mut self, buf: &[u8]) -> (r: Result<(), EncodingError>) {
        self.extend_from_slice(buf);
        Ok(())
    }
}

impl<T: Write> Write for &mut T {
    open spec fn written(&self) -> Seq<u8> {
        (**self).written()
    }

    open spec fn capacity(&self) -> Capacity {
        (**self).capacity()
    }

    fn write(&mut self, buf: &[u8]) -> (r: Result<(), EncodingError>) {
        (**self).write(buf)
    }
}

impl<T: Read> Read for &mut T {
    open spec fn remaining(&self) -> Seq<u8> {
        (**self).remaining()
    }

    open spec fn reliable(&self) -> bool {
        (**self).reliable()
    }

    open spec fn foresees(&self) -> bool {
        (**self).foresees()
    }

    fn ahead(&self) -> (r: Option<&[u8]>) {
        (**self).ahead()
    }

    fn read(&mut self, buf: &mut [u8]) -> (r: Result<(), EncodingError>) {
        (**self).read(buf)
    }
}

impl<'data, T: BorrowRead<'data>> BorrowRead<'data> for &mut T {
    fn peek(&self, len: usize) -> (r: Result<&'data [u8], EncodingError>) {
        (**self).peek(len)
    }

    fn borrow_read(&mut self, len: usize) -> (r: Result<&'data [u8], EncodingError>) {
        (**self).borrow_read(len)
    }
}

impl<T: Seek> Seek for &mut T {
    open spec fn position(&self) -> nat {
        (**self).position()
    }

    open spec fn extent(&self) -> nat {
        (**self).extent()
    }

    open spec fn seeks_freely(&self) -> bool {
        (**self).seeks_freely()
    }

    fn seek(&mut self, seek: SeekFrom) -> (r: Result<usize, EncodingError>) {
        (**self).seek(seek)
    }
}

} // verus!
