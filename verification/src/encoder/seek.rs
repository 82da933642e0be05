//! Moving about in a stream, and running a piece of work at another place
//! of the stream with the way back taken care of.

use vstd::prelude::*;
use crate::encoder::Encoder;
use crate::error::EncodingError;
use crate::io::Seek;
use crate::io::SeekFrom;

verus! {

/// The position that lies `distance` bytes after `position`, or before it.
pub open spec fn shifted(position: nat, forward: bool, distance: nat) -> int {
    if forward {
        (position + distance) as int
    } else {
        position - distance
    }
}

impl<'a, T: Seek, U> Encoder<'a, T, U> {
    /// The position of the stream.
    pub fn stream_position(&mut self) -> (r: Result<usize, EncodingError>)
        ensures
            final(self).ctxt == old(self).ctxt,
            final(self).stream.extent() == old(self).stream.extent(),
            final(self).stream.seeks_freely() == old(self).stream.seeks_freely(),
            final(self).stream.position() == old(self).stream.position(),
            r matches Ok(p) ==> p == old(self).stream.position(),
            old(self).stream.seeks_freely() ==> (r is Ok <==> old(self).stream.position() <= old(self).stream.extent()),
    {
        self.stream.seek(SeekFrom::position())
    }

    /// Moves the stream to the position that `seek` asks for and returns it.
    /// A failed seek moves nothing.
    pub fn seek(&mut self, seek: SeekFrom) -> (r: Result<usize, EncodingError>)
        ensures
            final(self).ctxt == old(self).ctxt,
            final(self).stream.extent() == old(self).stream.extent(),
            final(self).stream.seeks_freely() == old(self).stream.seeks_freely(),
            r matches Ok(p) ==> p == seek.target(
                old(self).stream.position(),
                old(self).stream.extent(),
            ) && final(self).stream.position() == p,
            r is Err ==> final(self).stream.position() == old(self).stream.position(),
            old(self).stream.seeks_freely() ==> (r is Ok <==> 0 <= seek.target(
                old(self).stream.position(),
                old(self).stream.extent(),
            ) <= old(self).stream.extent()),
    {
        self.stream.seek(seek)
    }

    /// Moves the stream by `distance` bytes, forward or back, with relative
    /// seeks alone. A distance that no single relative seek can span is
    /// covered in several.
    pub fn shift(&mut self, forward: bool, distance: usize) -> (r: Result<(), EncodingError>)
        ensures
            final(self).ctxt == old(self).ctxt,
            final(self).stream.extent() == old(self).stream.extent(),
            final(self).stream.seeks_freely() == old(self).stream.seeks_freely(),
            r is Ok ==> final(self).stream.position() == shifted(
                old(self).stream.position(),
                forward,
                distance as nat,
            ),
            old(self).stream.seeks_freely() && old(self).stream.position() <= old(self).stream.extent() ==> (r is Ok <==> 0 <= shifted(
                old(self).stream.position(),
                forward,
                distance as nat,
            ) <= old(self).stream.extent()),
    {
        let mut left: usize = distance;
        while left > isize::MAX as usize
            invariant
                left <= distance,
                self.ctxt == old(self).ctxt,
                self.stream.extent() == old(self).stream.extent(),
                self.stream.seeks_freely() == old(self).stream.seeks_freely(),
                self.stream.position() == shifted(
                    old(self).stream.position(),
                    forward,
                    (distance - left) as nat,
                ),
                old(self).stream.seeks_freely() && old(self).stream.position() <= old(
                    self,
                ).stream.extent() ==> 0 <= self.stream.position() <= old(self).stream.extent(),
            decreases left,
        {
            let step: isize = if forward {
                isize::MAX
            } else {
                -isize::MAX
            };
            match self.stream.seek(SeekFrom::Current(step)) {
                Ok(_) => {},
                Err(e) => {
                    return Err(e);
                },
            }
            left = left - isize::MAX as usize;
        }
        let last: isize = if forward {
            left as isize
        } else {
            -(left as isize)
        };
        match self.stream.seek(SeekFrom::Current(last)) {
            Ok(_) => Ok(()),
            Err(e) => Err(e),
        }
    }

    /// Runs `f` at the position that `seek` asks for, and then moves the
    /// stream back by as much as the seek had moved it, with relative seeks
    /// alone.
    ///
    /// If the position of the stream cannot be had, or the seek fails,
    /// nothing has moved and `f` is not run. Otherwise `f` runs once, on this
    /// encoder moved to the target. Its result is the result of the whole,
    /// unless the way back fails: then that failure is.
    pub fn with_seek<F, R>(&mut self, f: F, seek: SeekFrom) -> (r: Result<R, EncodingError>) where
        F: FnOnce(&mut Encoder<'a, T, U>) -> Result<R, EncodingError>,

        requires
            forall|x: &mut Encoder<'a, T, U>|
                x.ctxt == old(self).ctxt && x.stream.extent() == old(self).stream.extent()
                    && x.stream.seeks_freely() == old(self).stream.seeks_freely()
                    && x.stream.position() == seek.target(
                    old(self).stream.position(),
                    old(self).stream.extent(),
                ) ==> call_requires(f, (x,)),
        ensures
            r matches Ok(v) ==> exists|x: &mut Encoder<'a, T, U>|
                x.ctxt == old(self).ctxt && x.stream.position() == seek.target(
                    old(self).stream.position(),
                    old(self).stream.extent(),
                ) && #[trigger] call_ensures(f, (x,), r) && final(self).ctxt == final(x).ctxt
                    && final(self).stream.position() == final(x).stream.position() + old(self).stream.position() - seek.target(
                    old(self).stream.position(),
                    old(self).stream.extent(),
                ),
            old(self).stream.seeks_freely() && old(self).stream.position() <= old(self).stream.extent() ==> if 0 <= seek.target(
                old(self).stream.position(),
                old(self).stream.extent(),
            ) <= old(self).stream.extent() {
                exists|x: &mut Encoder<'a, T, U>, inner: Result<R, EncodingError>|
                    x.ctxt == old(self).ctxt && x.stream.position() == seek.target(
                        old(self).stream.position(),
                        old(self).stream.extent(),
                    ) && #[trigger] call_ensures(f, (x,), inner) && final(self).ctxt == final(x).ctxt && (final(x).stream.seeks_freely() && final(x).stream.position()
                        <= final(x).stream.extent() ==> if 0 <= final(x).stream.position() + old(self).stream.position() - seek.target(
                        old(self).stream.position(),
                        old(self).stream.extent(),
                    ) <= final(x).stream.extent() {
                        r == inner
                    } else {
                        r is Err
                    })
            } else {
                r is Err && final(self).ctxt == old(self).ctxt && final(self).stream.position()
                    == old(self).stream.position()
            },
    {
        let prev = match self.stream.seek(SeekFrom::position()) {
            Ok(p) => p,
            Err(e) => {
                return Err(e);
            },
        };
        let cur = match self.stream.seek(seek) {
            Ok(p) => p,
            Err(e) => {
                return Err(e);
            },
        };
        assert(self.ctxt == old(self).ctxt);
        assert(self.stream.extent() == old(self).stream.extent());
        assert(self.stream.seeks_freely() == old(self).stream.seeks_freely());
        assert(self.stream.position() == seek.target(
            old(self).stream.position(),
            old(self).stream.extent(),
        ));
        let inner = f(self);
        let back = if prev >= cur {
            self.shift(true, prev - cur)
        } else {
            self.shift(false, cur - prev)
        };
        match back {
            Ok(()) => inner,
            Err(e) => Err(e),
        }
    }
}

} // verus!
