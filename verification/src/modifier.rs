//! Stream modifiers: a piece of work whose bytes pass through a transform,
//! such as a compression or a cipher, on their way to or from the stream.

use vstd::prelude::*;
use crate::compression::Compression;
use crate::encoder::wrote;
use crate::encoder::Encoder;
use crate::error::EncodingError;
use crate::io::Read;
use crate::wire::number::read_one;
use crate::io::Slice;
use crate::io::Write;

verus! {

/// A transform of bytes into a frame that can be told from what follows it:
/// a compression, a cipher.
pub trait Transform {
    /// The frame that stands for `plain`.
    spec fn frame(&self, plain: Seq<u8>) -> Seq<u8>;

    /// The data of the frame at the front of `wire` and the length of that
    /// frame, or nothing where `wire` does not start with a whole frame.
    spec fn opened(&self, wire: Seq<u8>) -> Option<(Seq<u8>, nat)>;

    /// Whether this transform changes nothing: every run of bytes is its own
    /// frame, and a reader behind it takes from the stream just what it
    /// reads.
    spec fn transparent(&self) -> bool;

    /// A transform that changes nothing frames bytes as themselves and opens
    /// them as themselves.
    proof fn lemma_transparent(&self, bytes: Seq<u8>)
        ensures
            self.transparent() ==> self.frame(bytes) == bytes,
            self.transparent() ==> self.opened(bytes) == Some((bytes, bytes.len())),
    ;

    /// Whether this transform changes nothing.
    fn is_transparent(&self) -> (r: bool)
        ensures
            r == self.transparent(),
    ;

    /// Whether framing `plain` is sure to succeed.
    spec fn frames(&self, plain: Seq<u8>) -> bool;

    /// Makes the frame that stands for `plain`.
    fn apply(&self, plain: &[u8]) -> (r: Result<Vec<u8>, EncodingError>)
        ensures
            r matches Ok(frame) ==> frame@ == self.frame(plain@),
            self.frames(plain@) ==> r is Ok,
    ;

    /// Whether opening `wire` is sure to succeed.
    spec fn opens(&self, wire: Seq<u8>) -> bool;

    /// Takes the frame at the front of `wire` apart: returns its data and
    /// its length.
    fn revert(&self, wire: &[u8]) -> (r: Result<(Vec<u8>, usize), EncodingError>)
        ensures
            r matches Ok(found) ==> self.opened(wire@) == Some((found.0@, found.1 as nat))
                && found.1 <= wire@.len(),
            self.opened(wire@) is None ==> r is Err,
            self.opens(wire@) ==> r is Ok,
    ;
}

/// Whether what the transform frames, it opens again: the frame of any
/// data, followed by anything, is taken apart into that data and its own
/// length.
pub open spec fn lossless<X: Transform>(transform: X) -> bool {
    forall|plain: Seq<u8>, rest: Seq<u8>| #[trigger]
        transform.opened(transform.frame(plain) + rest) == Some(
            (plain, transform.frame(plain).len()),
        )
}

/// The transform that changes nothing: every run of bytes is its own frame.
pub struct Plain;

impl Transform for Plain {
    open spec fn frame(&self, plain: Seq<u8>) -> Seq<u8> {
        plain
    }

    open spec fn opened(&self, wire: Seq<u8>) -> Option<(Seq<u8>, nat)> {
        Some((wire, wire.len()))
    }

    open spec fn transparent(&self) -> bool {
        true
    }

    open spec fn frames(&self, plain: Seq<u8>) -> bool {
        true
    }

    open spec fn opens(&self, wire: Seq<u8>) -> bool {
        true
    }

    proof fn lemma_transparent(&self, bytes: Seq<u8>) {
    }

    fn is_transparent(&self) -> (r: bool) {
        true
    }

    fn apply(&self, plain: &[u8]) -> (r: Result<Vec<u8>, EncodingError>)
        ensures
            r is Ok,
    {
        Ok(vstd::slice::slice_to_vec(plain))
    }

    fn revert(&self, wire: &[u8]) -> (r: Result<(Vec<u8>, usize), EncodingError>)
        ensures
            r is Ok,
    {
        Ok((vstd::slice::slice_to_vec(wire), wire.len()))
    }
}

/// A transform made of two functions of the caller's own, such as the two
/// directions of a cipher: one that makes the frame of some bytes, and one
/// that takes the frame at the front of some bytes apart and tells its
/// length.
pub struct Custom<A, R> where
    A: Fn(&[u8]) -> Result<Vec<u8>, EncodingError>,
    R: Fn(&[u8]) -> Result<(Vec<u8>, usize), EncodingError>,
 {
    apply: A,
    revert: R,
}

/// Whether `apply` can be called on any bytes and gives the same frame for
/// the same bytes.
pub open spec fn frames_steadily<A: Fn(&[u8]) -> Result<Vec<u8>, EncodingError>>(apply: A) -> bool {
    &&& forall|b: &[u8]| call_requires(apply, (b,))
    &&& forall|b1: &[u8], b2: &[u8], r1: Vec<u8>, r2: Vec<u8>|
        b1@ == b2@ && #[trigger] call_ensures(apply, (b1,), Ok(r1)) && #[trigger] call_ensures(
            apply,
            (b2,),
            Ok(r2),
        ) ==> r1@ == r2@
}

/// Whether `revert` can be called on any bytes, gives the same data and
/// length for the same bytes, and never a length beyond the bytes.
pub open spec fn opens_steadily<R: Fn(&[u8]) -> Result<(Vec<u8>, usize), EncodingError>>(
    revert: R,
) -> bool {
    &&& forall|b: &[u8]| call_requires(revert, (b,))
    &&& forall|b: &[u8], r: (Vec<u8>, usize)| #[trigger]
        call_ensures(revert, (b,), Ok(r)) ==> r.1 <= b@.len()
    &&& forall|b1: &[u8], b2: &[u8], r1: (Vec<u8>, usize), r2: (Vec<u8>, usize)|
        b1@ == b2@ && #[trigger] call_ensures(revert, (b1,), Ok(r1)) && #[trigger] call_ensures(
            revert,
            (b2,),
            Ok(r2),
        ) ==> r1.0@ == r2.0@ && r1.1 == r2.1
}

/// Whether `apply` can give `out` as the frame of `plain`.
pub open spec fn frames_as<A: Fn(&[u8]) -> Result<Vec<u8>, EncodingError>>(
    apply: A,
    plain: Seq<u8>,
    out: Seq<u8>,
) -> bool {
    exists|b: &[u8], r: Vec<u8>|
        b@ == plain && #[trigger] call_ensures(apply, (b,), Ok(r)) && r@ == out
}

/// Whether `revert` can give `found` as the data and the length of the frame
/// at the front of `wire`.
pub open spec fn opens_as<R: Fn(&[u8]) -> Result<(Vec<u8>, usize), EncodingError>>(
    revert: R,
    wire: Seq<u8>,
    found: (Seq<u8>, nat),
) -> bool {
    exists|b: &[u8], r: (Vec<u8>, usize)|
        b@ == wire && #[trigger] call_ensures(revert, (b,), Ok(r)) && r.0@ == found.0 && r.1
            == found.1
}

/// Whether `apply` gives a frame whenever it is called on `plain`.
pub open spec fn always_frames<A: Fn(&[u8]) -> Result<Vec<u8>, EncodingError>>(
    apply: A,
    plain: Seq<u8>,
) -> bool {
    forall|b: &[u8], r: Result<Vec<u8>, EncodingError>|
        b@ == plain && #[trigger] call_ensures(apply, (b,), r) ==> r is Ok
}

/// Whether `revert` opens a frame whenever it is called on `wire`.
pub open spec fn always_opens<R: Fn(&[u8]) -> Result<(Vec<u8>, usize), EncodingError>>(
    revert: R,
    wire: Seq<u8>,
) -> bool {
    forall|b: &[u8], r: Result<(Vec<u8>, usize), EncodingError>|
        b@ == wire && #[trigger] call_ensures(revert, (b,), r) ==> r is Ok
}

impl<A, R> Custom<A, R> where
    A: Fn(&[u8]) -> Result<Vec<u8>, EncodingError>,
    R: Fn(&[u8]) -> Result<(Vec<u8>, usize), EncodingError>,
 {
    #[verifier::type_invariant]
    spec fn steady(self) -> bool {
        frames_steadily(self.apply) && opens_steadily(self.revert)
    }

    /// The function that makes frames.
    pub closed spec fn framer(&self) -> A {
        self.apply
    }

    /// The function that opens frames.
    pub closed spec fn opener(&self) -> R {
        self.revert
    }

    /// Framing is sure to succeed exactly where the framing function always
    /// gives a frame, and opening where the opening function always opens.
    pub proof fn lemma_sure(&self, bytes: Seq<u8>)
        ensures
            self.frames(bytes) == always_frames(self.framer(), bytes),
            self.opens(bytes) == always_opens(self.opener(), bytes),
    {
    }

    /// A transform that frames with `apply` and opens with `revert`. Both
    /// must be functions in the strict sense: the same bytes in, the same
    /// result out; and `revert` must tell a length within the bytes that it
    /// was given.
    pub fn new(apply: A, revert: R) -> (r: Self)
        requires
            frames_steadily(apply),
            opens_steadily(revert),
        ensures
            r.framer() == apply,
            r.opener() == revert,
    {
        Custom { apply, revert }
    }
}

impl<A, R> Transform for Custom<A, R> where
    A: Fn(&[u8]) -> Result<Vec<u8>, EncodingError>,
    R: Fn(&[u8]) -> Result<(Vec<u8>, usize), EncodingError>,
 {
    closed spec fn frame(&self, plain: Seq<u8>) -> Seq<u8> {
        choose|out: Seq<u8>| frames_as(self.apply, plain, out)
    }

    closed spec fn opened(&self, wire: Seq<u8>) -> Option<(Seq<u8>, nat)> {
        if exists|found: (Seq<u8>, nat)| opens_as(self.revert, wire, found) {
            Some(choose|found: (Seq<u8>, nat)| opens_as(self.revert, wire, found))
        } else {
            None
        }
    }

    open spec fn transparent(&self) -> bool {
        false
    }

    closed spec fn frames(&self, plain: Seq<u8>) -> bool {
        always_frames(self.apply, plain)
    }

    closed spec fn opens(&self, wire: Seq<u8>) -> bool {
        always_opens(self.revert, wire)
    }

    proof fn lemma_transparent(&self, bytes: Seq<u8>) {
    }

    fn is_transparent(&self) -> (r: bool) {
        false
    }

    /// Makes the frame of `plain` with the framing function: the result is
    /// one that the function gives on `plain`.
    fn apply(&self, plain: &[u8]) -> (r: Result<Vec<u8>, EncodingError>)
        ensures
            call_ensures(self.framer(), (plain,), r),
    {
        proof {
            use_type_invariant(self);
        }
        let r = (self.apply)(plain);
        proof {
            if r is Ok {
                let out = r->Ok_0@;
                assert(frames_as(self.apply, plain@, out));
            }
        }
        r
    }

    /// Opens the frame at the front of `wire` with the opening function:
    /// the result is one that the function gives on `wire`.
    fn revert(&self, wire: &[u8]) -> (r: Result<(Vec<u8>, usize), EncodingError>)
        ensures
            call_ensures(self.opener(), (wire,), r),
    {
        proof {
            use_type_invariant(self);
        }
        let r = (self.revert)(wire);
        proof {
            if r is Ok {
                let found = (r->Ok_0.0@, r->Ok_0.1 as nat);
                assert(opens_as(self.revert, wire@, found));
                let chosen = choose|found: (Seq<u8>, nat)| opens_as(self.revert, wire@, found);
                assert(opens_as(self.revert, wire@, chosen));
                assert(chosen.0 == found.0 && chosen.1 == found.1);
            }
        }
        r
    }
}

/// The result of a piece of work and of the closing of the layer it ran in,
/// put together: a failure of the work stands; otherwise a failure of the
/// closing does; otherwise the result is that of the work.
pub open spec fn spec_settle<V>(work: Result<V, EncodingError>, closing: Result<(), EncodingError>) -> Result<
    V,
    EncodingError,
> {
    match work {
        Err(e) => Err(e),
        Ok(v) => match closing {
            Err(e) => Err(e),
            Ok(()) => Ok(v),
        },
    }
}

/// Puts the result of a piece of work and of the closing of its layer
/// together: a failure of the work stands; otherwise a failure of the
/// closing does; otherwise the result is that of the work.
pub fn settle<V>(work: Result<V, EncodingError>, closing: Result<(), EncodingError>) -> (r: Result<
    V,
    EncodingError,
>)
    ensures
        r == spec_settle(work, closing),
{
    match work {
        Err(e) => Err(e),
        Ok(v) => match closing {
            Err(e) => Err(e),
            Ok(()) => Ok(v),
        },
    }
}

/// Runs `f` on an encoder whose bytes pass through `transform` before they
/// reach the stream of `encoder`.
///
/// `f` runs once, on an encoder with the context of `encoder` and a stream
/// of its own. Whatever the result of `f`, the layer is then closed: what
/// `f` wrote is made into one frame, which is written to the stream of
/// `encoder` in one piece, and the context that `f` left is handed back. The
/// closing is made even where `f` has failed, so that the stream holds a
/// whole frame; it succeeds wherever the transform is sure to frame and the
/// writer sure to take the frame. The result is that of `f` and of the
/// closing, settled as [`settle`] says.
pub fn encode_with_transform<'a, W: Write, U, X: Transform, F>(
    encoder: &mut Encoder<'a, W, U>,
    transform: &X,
    f: F,
) -> (r: Result<(), EncodingError>) where
    F: FnOnce(&mut Encoder<'a, Vec<u8>, U>) -> Result<(), EncodingError>,

    requires
        forall|x: &mut Encoder<'a, Vec<u8>, U>|
            x.ctxt == old(encoder).ctxt && x.stream@ == Seq::<u8>::empty() ==> call_requires(
                f,
                (x,),
            ),
    ensures
        exists|x: &mut Encoder<'a, Vec<u8>, U>, work: Result<(), EncodingError>, closing: Result<
            (),
            EncodingError,
        >|
            #![trigger call_ensures(f, (x,), work), spec_settle(work, closing)]
            x.ctxt == old(encoder).ctxt && x.stream@ == Seq::<u8>::empty() && call_ensures(
                f,
                (x,),
                work,
            ) && r == spec_settle(work, closing) && final(encoder).ctxt == final(x).ctxt && (
            closing is Ok ==> wrote(
                old(encoder).stream,
                final(encoder).stream,
                closing,
                transform.frame(final(x).stream@),
            )) && (closing is Err ==> final(encoder).stream.written() == old(encoder).stream.written()) && (transform.frames(final(x).stream@) && old(encoder).stream.capacity().takes(transform.frame(final(x).stream@).len()) ==> closing is Ok),
{
    let mut inner = Encoder::new(Vec::new(), encoder.ctxt);
    let work = f(&mut inner);
    let (buffer, ctxt) = inner.finish();
    encoder.ctxt = ctxt;
    let closing = match transform.apply(buffer.as_slice()) {
        Ok(frame) => encoder.stream.write(frame.as_slice()),
        Err(e) => Err(e),
    };
    settle(work, closing)
}

/// How many bytes the closing of a decoding layer takes from the stream:
/// the whole frame, or, behind a transform that changes nothing, what the
/// work has read.
pub open spec fn taken(transparent: bool, frame: nat, read: nat) -> nat {
    if transparent {
        read
    } else {
        frame
    }
}

/// How many bytes the closing of a decoding layer takes from a stream of
/// `all` bytes. A reader that shows nothing ahead was read to its end to
/// find the frame, so all is taken. Otherwise it is what [`taken`] says.
pub open spec fn spent(foresees: bool, transparent: bool, frame: nat, read: nat, all: nat) -> nat {
    if foresees {
        taken(transparent, frame, read)
    } else {
        all
    }
}

/// Whether what a layer finds in the stream is known from what is left of
/// it: the reader shows what is left, or reads it without fail.
pub open spec fn sighted<R: Read>(stream: R) -> bool {
    stream.foresees() || stream.reliable()
}

/// Reads the stream to its end and returns what it held. What is returned
/// is what the stream held first; from a reliable stream it is all that the
/// stream held, and nothing is left. A failure other than the end of the
/// stream is handed on.
pub fn drain<R: Read>(stream: &mut R) -> (r: Result<Vec<u8>, EncodingError>)
    ensures
        (*final(stream)).reliable() == (*old(stream)).reliable(),
        r matches Ok(all) ==> all@.len() <= (*old(stream)).remaining().len() && all@ == (*old(
            stream,
        )).remaining().take(all@.len() as int),
        (*old(stream)).reliable() ==> (r matches Ok(all) && all@ == (*old(stream)).remaining()
            && (*final(stream)).remaining() == (*old(stream)).remaining().skip(
            (*old(stream)).remaining().len() as int,
        )),
{
    let ghost s0 = (*old(stream)).remaining();
    let mut out: Vec<u8> = Vec::new();
    loop
        invariant
            s0 == (*old(stream)).remaining(),
            (*stream).reliable() == (*old(stream)).reliable(),
            out@.len() <= s0.len(),
            out@ == s0.take(out@.len() as int),
            (*stream).remaining() == s0.skip(out@.len() as int),
        decreases (*stream).remaining().len(),
    {
        let ghost i = out@.len() as int;
        match read_one(stream) {
            Ok(byte) => {
                out.push(byte);
                proof {
                    assert(s0.skip(i).skip(1) =~= s0.skip(i + 1));
                    assert(s0.take(i + 1) =~= s0.take(i).push(s0[i]));
                }
            },
            Err(EncodingError::UnexpectedEnd) => {
                proof {
                    if (*old(stream)).reliable() {
                        assert(s0.take(i) =~= s0);
                    }
                }
                return Ok(out);
            },
            Err(e) => {
                return Err(e);
            },
        }
    }
}

/// Reads `n` bytes from the stream and lets them go.
pub fn discard<R: Read>(stream: &mut R, n: usize) -> (r: Result<(), EncodingError>)
    ensures
        (*final(stream)).reliable() == (*old(stream)).reliable(),
        r is Ok ==> n <= (*old(stream)).remaining().len() && (*final(stream)).remaining() == (*old(
            stream,
        )).remaining().skip(n as int),
        (*old(stream)).reliable() ==> (r is Ok <==> n <= (*old(stream)).remaining().len()),
{
    let ghost s0 = (*old(stream)).remaining();
    let mut i: usize = 0;
    proof {
        assert(s0.skip(0) =~= s0);
    }
    while i < n
        invariant
            i <= n,
            i <= s0.len(),
            s0 == (*old(stream)).remaining(),
            (*stream).reliable() == (*old(stream)).reliable(),
            (*stream).remaining() == s0.skip(i as int),
        decreases n - i,
    {
        match read_one(stream) {
            Ok(_) => {},
            Err(e) => {
                return Err(e);
            },
        }
        proof {
            assert(s0.skip(i as int).skip(1) =~= s0.skip(i + 1));
        }
        i += 1;
    }
    Ok(())
}

/// Runs `f` on a decoder whose bytes come out of the frame of `transform`
/// that lies at the front of the stream of `decoder`.
///
/// A reader that shows what is left is looked into: if it does not start
/// with a whole frame, or the transform fails to open it, nothing has
/// changed and `f` is not run. Otherwise `f` runs once, on a decoder with
/// the context of `decoder` over the data of the frame. Whatever the result
/// of `f`, and however much of the data it has read, the layer is then
/// closed: the whole frame is consumed from the stream of `decoder`, and the
/// context that `f` left is handed back. Behind a transform that changes
/// nothing there is no frame to tell from what follows it: there the closing
/// consumes what `f` has read.
///
/// A reader that shows nothing ahead is read to its end first, and the
/// frame is looked for in what it held: nothing is left in it afterwards,
/// whatever follows the frame.
///
/// The result is that of `f` and of the closing, settled as [`settle`]
/// says.
pub fn decode_with_transform<'a, 'data, R: Read, U, X: Transform, F, V>(
    decoder: &mut Encoder<'a, R, U>,
    transform: &X,
    f: F,
) -> (r: Result<V, EncodingError>) where
    F: FnOnce(&mut Encoder<'a, Slice<'_>, U>) -> Result<V, EncodingError>,

    requires
        forall|x: &mut Encoder<'a, Slice<'data>, U>|
            #![trigger call_requires(f, (x,))]
            x.ctxt == old(decoder).ctxt && x.stream.pos == 0 && (sighted(old(decoder).stream) ==> (transform.opened(old(decoder).stream.remaining()) is Some
                && x.stream.data@ == transform.opened(old(decoder).stream.remaining())->Some_0.0)) ==> call_requires(f, (x,)),
    ensures
        (*final(decoder)).stream.reliable() == (*old(decoder)).stream.reliable(),
        sighted(old(decoder).stream) && transform.opened(old(decoder).stream.remaining()) is None ==> r is Err,
        old(decoder).stream.foresees() && transform.opened(old(decoder).stream.remaining()) is None ==> *final(decoder) == *old(decoder),
        sighted(old(decoder).stream) ==> ((!transform.opens(old(decoder).stream.remaining()) && r is Err && (old(decoder).stream.foresees() ==> *final(decoder) == *old(decoder))) || (transform.opened(old(decoder).stream.remaining()) matches Some(found) && exists|
            x: &mut Encoder<'a, Slice<'data>, U>,
            work: Result<V, EncodingError>,
            closing: Result<(), EncodingError>,
        |
            #![trigger call_ensures(f, (x,), work), spec_settle(work, closing)]
            x.ctxt == old(decoder).ctxt && x.stream.pos == 0 && x.stream.data@ == found.0
                && call_ensures(f, (x,), work) && r == spec_settle(work, closing) && final(decoder).ctxt == final(x).ctxt && (closing is Ok ==> spent(old(decoder).stream.foresees(), transform.transparent(), found.1, final(x).stream.offset(), old(decoder).stream.remaining().len()) <= old(decoder).stream.remaining().len() && final(decoder).stream.remaining() == old(decoder).stream.remaining().skip(spent(old(decoder).stream.foresees(), transform.transparent(), found.1, final(x).stream.offset(), old(decoder).stream.remaining().len()) as int)) && (old(decoder).stream.reliable()
                ==> (closing is Ok <==> spent(old(decoder).stream.foresees(), transform.transparent(), found.1, final(x).stream.offset(), old(decoder).stream.remaining().len()) <= old(decoder).stream.remaining().len())))),
{
    let ghost s0 = old(decoder).stream.remaining();
    let shown = match decoder.stream.ahead() {
        Some(wire) => Some(transform.revert(wire)),
        None => None,
    };
    let (opened, looked) = match shown {
        Some(opened) => (opened, true),
        None => {
            let wire = match drain(&mut decoder.stream) {
                Ok(wire) => wire,
                Err(e) => {
                    return Err(e);
                },
            };
            (transform.revert(wire.as_slice()), false)
        },
    };
    let (plain, used) = match opened {
        Ok(found) => found,
        Err(e) => {
            return Err(e);
        },
    };
    let mut inner = Encoder::new(Slice::new(plain.as_slice()), decoder.ctxt);
    let work = f(&mut inner);
    let (source, ctxt) = inner.finish();
    decoder.ctxt = ctxt;
    let closing = if looked {
        let take = if transform.is_transparent() {
            proof {
                transform.lemma_transparent(s0);
            }
            source.consumed()
        } else {
            used
        };
        discard(&mut decoder.stream, take)
    } else {
        Ok(())
    };
    settle(work, closing)
}

/// The compression to use where `compression` may be absent: an absent one
/// is no compression.
pub open spec fn spec_resolve(compression: Option<Compression>) -> Compression {
    match compression {
        Some(c) => c,
        None => Compression::Uncompressed,
    }
}

/// The compression to use where `compression` may be absent: an absent one
/// is no compression.
pub fn resolve(compression: Option<Compression>) -> (r: Compression)
    ensures
        r == spec_resolve(compression),
{
    match compression {
        Some(c) => c,
        None => Compression::Uncompressed,
    }
}

/// Runs `f` on an encoder whose bytes are compressed on their way to the
/// stream of `encoder`. An absent compression lets the bytes pass as they
/// are. See [`encode_with_transform`].
pub fn encode_with_compression<'a, W: Write, U, F>(
    encoder: &mut Encoder<'a, W, U>,
    compression: Option<Compression>,
    f: F,
) -> (r: Result<(), EncodingError>) where
    F: FnOnce(&mut Encoder<'a, Vec<u8>, U>) -> Result<(), EncodingError>,

    requires
        forall|x: &mut Encoder<'a, Vec<u8>, U>|
            x.ctxt == old(encoder).ctxt && x.stream@ == Seq::<u8>::empty() ==> call_requires(
                f,
                (x,),
            ),
    ensures
        exists|x: &mut Encoder<'a, Vec<u8>, U>, work: Result<(), EncodingError>, closing: Result<
            (),
            EncodingError,
        >|
            #![trigger call_ensures(f, (x,), work), spec_settle(work, closing)]
            x.ctxt == old(encoder).ctxt && x.stream@ == Seq::<u8>::empty() && call_ensures(
                f,
                (x,),
                work,
            ) && r == spec_settle(work, closing) && final(encoder).ctxt == final(x).ctxt && (
            closing is Ok ==> wrote(
                old(encoder).stream,
                final(encoder).stream,
                closing,
                spec_resolve(compression).frame(final(x).stream@),
            )) && (closing is Err ==> final(encoder).stream.written() == old(encoder).stream.written()) && (spec_resolve(compression).frames(final(x).stream@) && old(encoder).stream.capacity().takes(spec_resolve(compression).frame(final(x).stream@).len()) ==> closing is Ok),
{
    let chosen = resolve(compression);
    encode_with_transform(encoder, &chosen, f)
}

/// Runs `f` on an encoder whose bytes are encrypted on their way to the
/// stream of `encoder`. An absent cipher lets the bytes pass as they are.
/// See [`encode_with_transform`].
pub fn encode_with_encryption<'a, W: Write, U, X: Transform, F>(
    encoder: &mut Encoder<'a, W, U>,
    cipher: Option<&X>,
    f: F,
) -> (r: Result<(), EncodingError>) where
    F: FnOnce(&mut Encoder<'a, Vec<u8>, U>) -> Result<(), EncodingError>,

    requires
        forall|x: &mut Encoder<'a, Vec<u8>, U>|
            x.ctxt == old(encoder).ctxt && x.stream@ == Seq::<u8>::empty() ==> call_requires(
                f,
                (x,),
            ),
    ensures
        exists|x: &mut Encoder<'a, Vec<u8>, U>, work: Result<(), EncodingError>, closing: Result<
            (),
            EncodingError,
        >|
            #![trigger call_ensures(f, (x,), work), spec_settle(work, closing)]
            x.ctxt == old(encoder).ctxt && x.stream@ == Seq::<u8>::empty() && call_ensures(
                f,
                (x,),
                work,
            ) && r == spec_settle(work, closing) && final(encoder).ctxt == final(x).ctxt && (
            closing is Ok ==> wrote(
                old(encoder).stream,
                final(encoder).stream,
                closing,
                cipher_frame(cipher, final(x).stream@),
            )) && (closing is Err ==> final(encoder).stream.written() == old(encoder).stream.written()) && (cipher_frames(cipher, final(x).stream@) && old(encoder).stream.capacity().takes(cipher_frame(cipher, final(x).stream@).len()) ==> closing is Ok),
{
    match cipher {
        Some(c) => encode_with_transform(encoder, c, f),
        None => encode_with_transform(encoder, &Plain, f),
    }
}

/// The frame that an optional cipher makes: an absent one leaves the bytes
/// as they are.
pub open spec fn cipher_frame<X: Transform>(cipher: Option<&X>, plain: Seq<u8>) -> Seq<u8> {
    match cipher {
        Some(c) => c.frame(plain),
        None => plain,
    }
}

/// Whether framing with an optional cipher is sure to succeed: with an
/// absent one it is.
pub open spec fn cipher_frames<X: Transform>(cipher: Option<&X>, plain: Seq<u8>) -> bool {
    match cipher {
        Some(c) => c.frames(plain),
        None => true,
    }
}

/// Whether opening with an optional cipher is sure to succeed: with an
/// absent one it is.
pub open spec fn cipher_opens<X: Transform>(cipher: Option<&X>, wire: Seq<u8>) -> bool {
    match cipher {
        Some(c) => c.opens(wire),
        None => true,
    }
}

/// Whether an optional cipher changes nothing: an absent one does.
pub open spec fn cipher_transparent<X: Transform>(cipher: Option<&X>) -> bool {
    match cipher {
        Some(c) => c.transparent(),
        None => true,
    }
}

/// What an optional cipher opens: an absent one takes all the bytes as they
/// are.
pub open spec fn cipher_opened<X: Transform>(cipher: Option<&X>, wire: Seq<u8>) -> Option<
    (Seq<u8>, nat),
> {
    match cipher {
        Some(c) => c.opened(wire),
        None => Some((wire, wire.len())),
    }
}

/// Runs `f` on a decoder whose bytes come out of the compressed frame at the
/// front of the stream of `decoder`. An absent compression takes all that
/// is left of the stream as it is. See [`decode_with_transform`].
pub fn decode_with_compression<'a, 'data, R: Read, U, F, V>(
    decoder: &mut Encoder<'a, R, U>,
    compression: Option<Compression>,
    f: F,
) -> (r: Result<V, EncodingError>) where
    F: FnOnce(&mut Encoder<'a, Slice<'_>, U>) -> Result<V, EncodingError>,

    requires
        forall|x: &mut Encoder<'a, Slice<'data>, U>|
            #![trigger call_requires(f, (x,))]
            x.ctxt == old(decoder).ctxt && x.stream.pos == 0 && (sighted(old(decoder).stream) ==> (spec_resolve(compression).opened(old(decoder).stream.remaining()) is Some
                && x.stream.data@ == spec_resolve(compression).opened(old(decoder).stream.remaining())->Some_0.0)) ==> call_requires(f, (x,)),
    ensures
        (*final(decoder)).stream.reliable() == (*old(decoder)).stream.reliable(),
        sighted(old(decoder).stream) && spec_resolve(compression).opened(old(decoder).stream.remaining()) is None ==> r is Err,
        old(decoder).stream.foresees() && spec_resolve(compression).opened(old(decoder).stream.remaining()) is None ==> *final(decoder) == *old(decoder),
        sighted(old(decoder).stream) ==> ((!spec_resolve(compression).opens(old(decoder).stream.remaining()) && r is Err && (old(decoder).stream.foresees() ==> *final(decoder) == *old(decoder))) || (spec_resolve(compression).opened(old(decoder).stream.remaining()) matches Some(found) && exists|
            x: &mut Encoder<'a, Slice<'data>, U>,
            work: Result<V, EncodingError>,
            closing: Result<(), EncodingError>,
        |
            #![trigger call_ensures(f, (x,), work), spec_settle(work, closing)]
            x.ctxt == old(decoder).ctxt && x.stream.pos == 0 && x.stream.data@ == found.0
                && call_ensures(f, (x,), work) && r == spec_settle(work, closing) && final(decoder).ctxt == final(x).ctxt && (closing is Ok ==> spent(old(decoder).stream.foresees(), spec_resolve(compression).transparent(), found.1, final(x).stream.offset(), old(decoder).stream.remaining().len()) <= old(decoder).stream.remaining().len() && final(decoder).stream.remaining() == old(decoder).stream.remaining().skip(spent(old(decoder).stream.foresees(), spec_resolve(compression).transparent(), found.1, final(x).stream.offset(), old(decoder).stream.remaining().len()) as int)) && (old(decoder).stream.reliable()
                ==> (closing is Ok <==> spent(old(decoder).stream.foresees(), spec_resolve(compression).transparent(), found.1, final(x).stream.offset(), old(decoder).stream.remaining().len()) <= old(decoder).stream.remaining().len())))),
{
    let chosen = resolve(compression);
    decode_with_transform(decoder, &chosen, f)
}

/// Runs `f` on a decoder whose bytes come out of the encrypted frame at the
/// front of the stream of `decoder`. An absent cipher takes all that is left
/// of the stream as it is. See [`decode_with_transform`].
pub fn decode_with_encryption<'a, 'data, R: Read, U, X: Transform, F, V>(
    decoder: &mut Encoder<'a, R, U>,
    cipher: Option<&X>,
    f: F,
) -> (r: Result<V, EncodingError>) where
    F: FnOnce(&mut Encoder<'a, Slice<'_>, U>) -> Result<V, EncodingError>,

    requires
        forall|x: &mut Encoder<'a, Slice<'data>, U>|
            #![trigger call_requires(f, (x,))]
            x.ctxt == old(decoder).ctxt && x.stream.pos == 0 && (sighted(old(decoder).stream) ==> (cipher_opened(cipher, old(decoder).stream.remaining()) is Some
                && x.stream.data@ == cipher_opened(cipher, old(decoder).stream.remaining())->Some_0.0)) ==> call_requires(f, (x,)),
    ensures
        (*final(decoder)).stream.reliable() == (*old(decoder)).stream.reliable(),
        sighted(old(decoder).stream) && cipher_opened(cipher, old(decoder).stream.remaining()) is None ==> r is Err,
        old(decoder).stream.foresees() && cipher_opened(cipher, old(decoder).stream.remaining()) is None ==> *final(decoder) == *old(decoder),
        sighted(old(decoder).stream) ==> ((!cipher_opens(cipher, old(decoder).stream.remaining()) && r is Err && (old(decoder).stream.foresees() ==> *final(decoder) == *old(decoder))) || (cipher_opened(cipher, old(decoder).stream.remaining()) matches Some(found) && exists|
            x: &mut Encoder<'a, Slice<'data>, U>,
            work: Result<V, EncodingError>,
            closing: Result<(), EncodingError>,
        |
            #![trigger call_ensures(f, (x,), work), spec_settle(work, closing)]
            x.ctxt == old(decoder).ctxt && x.stream.pos == 0 && x.stream.data@ == found.0
                && call_ensures(f, (x,), work) && r == spec_settle(work, closing) && final(decoder).ctxt == final(x).ctxt && (closing is Ok ==> spent(old(decoder).stream.foresees(), cipher_transparent(cipher), found.1, final(x).stream.offset(), old(decoder).stream.remaining().len()) <= old(decoder).stream.remaining().len() && final(decoder).stream.remaining() == old(decoder).stream.remaining().skip(spent(old(decoder).stream.foresees(), cipher_transparent(cipher), found.1, final(x).stream.offset(), old(decoder).stream.remaining().len()) as int)) && (old(decoder).stream.reliable()
                ==> (closing is Ok <==> spent(old(decoder).stream.foresees(), cipher_transparent(cipher), found.1, final(x).stream.offset(), old(decoder).stream.remaining().len()) <= old(decoder).stream.remaining().len())))),
{
    match cipher {
        Some(c) => decode_with_transform(decoder, c, f),
        None => decode_with_transform(decoder, &Plain, f),
    }
}

/// **A failure of the work outlives the closing of its layer.** Whatever
/// the closing gives, a failed piece of work is the result; and where the
/// work succeeded, a failed closing is.
pub proof fn law_first_failure_stands<V>(work: Result<V, EncodingError>, closing: Result<(), EncodingError>)
    ensures
        work matches Err(e) ==> spec_settle(work, closing) == Err::<V, EncodingError>(e),
        work is Ok && closing is Err ==> spec_settle(work, closing) == Err::<V, EncodingError>(
            closing->Err_0,
        ),
        work is Ok && closing is Ok ==> spec_settle(work, closing) == work,
{
}

/// **Layers unwind in the order in which they were wound.** What an inner
/// layer framed and an outer layer framed over it, followed by anything, the
/// outer layer opens into the frame of the inner, and the inner layer opens
/// that into the bytes of the work, provided that each layer opens what it
/// frames.
pub proof fn law_layers_unwind<A: Transform, B: Transform>(
    outer: A,
    inner: B,
    body: Seq<u8>,
    rest: Seq<u8>,
)
    requires
        lossless(outer),
        lossless(inner),
    ensures
        outer.opened(outer.frame(inner.frame(body)) + rest) == Some(
            (inner.frame(body), outer.frame(inner.frame(body)).len()),
        ),
        inner.opened(inner.frame(body)) == Some((body, inner.frame(body).len())),
{
    assert(inner.frame(body) + Seq::<u8>::empty() =~= inner.frame(body));
    assert(inner.opened(inner.frame(body) + Seq::<u8>::empty()) == Some(
        (body, inner.frame(body).len()),
    ));
}

} // verus!
