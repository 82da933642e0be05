//! The codecs of vectors and options: a size or a boolean, and then the
//! codec of what they hold.

use vstd::prelude::*;
use crate::codec::encoded;
use crate::codec::lemma_parts_compose;
use crate::codec::BorrowDecode;
use crate::codec::Decode;
use crate::codec::Encode;
use crate::codec::Image;
use crate::context::State;
use crate::encoder::read::bool_parse;
use crate::encoder::read::size_parse;
use crate::encoder::write::bool_image;
use crate::encoder::write::size_image;
use crate::encoder::write::wrote_in_parts;
use crate::encoder::wrote;
use crate::encoder::Encoder;
use crate::error::BorrowError;
use crate::error::EncodingError;
use crate::error::StringError;
use crate::io::BorrowRead;
use crate::io::Read;
use crate::io::Write;
use crate::settings::NumEncoding;
use crate::wire::number::reads;
use crate::wire::number::Parsed;

verus! {

/// What encoding the items one after the other calls for, each under the
/// state that the one before it leaves.
pub open spec fn items_image<T: Encode>(items: Seq<T>, state: State) -> Result<Image, EncodingError>
    decreases items.len(),
{
    if items.len() == 0 {
        Ok(Image { bytes: Seq::empty(), state })
    } else {
        match items_image(items.drop_last(), state) {
            Err(e) => Err(e),
            Ok(before) => match items.last().image(before.state) {
                Err(e) => Err(e),
                Ok(last) => Ok(Image { bytes: before.bytes + last.bytes, state: last.state }),
            },
        }
    }
}

/// Encoding items leaves the settings as they were.
pub proof fn lemma_items_keep_settings<T: Encode>(items: Seq<T>, state: State)
    ensures
        items_image(items, state) matches Ok(image) ==> image.state.settings == state.settings,
    decreases items.len(),
{
    if items.len() > 0 {
        lemma_items_keep_settings(items.drop_last(), state);
        if let Ok(before) = items_image(items.drop_last(), state) {
            items.last().lemma_image_keeps_settings(before.state);
        }
    }
}

/// Where all the items can be encoded, so can the first `i` of them, and
/// their bytes are no more.
pub proof fn lemma_items_prefix<T: Encode>(items: Seq<T>, state: State, i: int)
    requires
        0 <= i <= items.len(),
        items_image(items, state) is Ok,
    ensures
        items_image(items.take(i), state) is Ok,
        items_image(items.take(i), state)->Ok_0.bytes.len() <= items_image(
            items,
            state,
        )->Ok_0.bytes.len(),
    decreases items.len(),
{
    if i == items.len() {
        assert(items.take(i) =~= items);
    } else {
        lemma_items_prefix(items.drop_last(), state, i);
        assert(items.drop_last().take(i) =~= items.take(i));
    }
}

/// Where the first `i` items can be encoded and the next one meets an
/// error, that error is what encoding all the items meets.
pub proof fn lemma_items_error<T: Encode>(items: Seq<T>, state: State, i: int)
    requires
        0 <= i < items.len(),
        items_image(items.take(i), state) is Ok,
        items[i].image(items_image(items.take(i), state)->Ok_0.state) is Err,
    ensures
        items_image(items, state) == Err::<Image, EncodingError>(
            items[i].image(items_image(items.take(i), state)->Ok_0.state)->Err_0,
        ),
    decreases items.len(),
{
    if i == items.len() - 1 {
        assert(items.drop_last() =~= items.take(i));
    } else {
        assert(items.drop_last().take(i) =~= items.take(i));
        lemma_items_error(items.drop_last(), state, i);
    }
}

/// What encoding a vector calls for: its length as a size, then its items.
pub open spec fn vec_image<T: Encode>(items: Seq<T>, state: State) -> Result<Image, EncodingError> {
    if items.len() > usize::MAX {
        Err(EncodingError::UnexpectedEnd)
    } else {
        match size_image(state, items.len() as usize) {
            Err(e) => Err(e),
            Ok(prefix) => match items_image(items, state.without_size()) {
                Err(e) => Err(e),
                Ok(body) => Ok(Image { bytes: prefix + body.bytes, state: body.state }),
            },
        }
    }
}

/// Writes the items one after the other, with no length before them.
pub fn encode_items<'a, T: Encode, W: Write, U>(encoder: &mut Encoder<'a, W, U>, items: &[T]) -> (r:
    Result<(), EncodingError>)
    ensures
        encoded(
            *old(encoder),
            *final(encoder),
            r,
            items_image(items@, old(encoder).ctxt.spec_state()),
        ),
        r is Ok ==> final(encoder).ctxt.settings == old(encoder).ctxt.settings,
{
    let ghost state = old(encoder).ctxt.spec_state();
    let ghost all = items@;
    let n = items.len();
    let mut i: usize = 0;
    proof {
        assert(all.take(0) =~= Seq::<T>::empty());
        assert(old(encoder).stream.written() + Seq::<u8>::empty() =~= old(
            encoder,
        ).stream.written());
        lemma_items_keep_settings(all, state);
    }
    while i < n
        invariant
            i <= n,
            n == all.len(),
            all == items@,
            state == old(encoder).ctxt.spec_state(),
            encoder.ctxt.user == old(encoder).ctxt.user,
            encoder.ctxt.settings == old(encoder).ctxt.settings,
            items_image(all.take(i as int), state) is Ok,
            encoder.ctxt.spec_state() == items_image(all.take(i as int), state)->Ok_0.state,
            wrote_in_parts(
                old(encoder).stream,
                encoder.stream,
                Ok(()),
                items_image(all.take(i as int), state)->Ok_0.bytes,
            ),
        decreases n - i,
    {
        let ghost done = items_image(all.take(i as int), state)->Ok_0;
        let ghost before = encoder.stream;
        let item = &items[i];
        proof {
            assert(all.take(i + 1).drop_last() =~= all.take(i as int));
            assert(all.take(i + 1).last() == all[i as int]);
            if items_image(all, state) is Ok {
                lemma_items_prefix(all, state, i + 1);
            }
            lemma_items_keep_settings(all.take(i as int), state);
        }
        let r = item.encode(encoder);
        proof {
            if let Ok(one) = item.image(done.state) {
                lemma_parts_compose(
                    old(encoder).stream,
                    before,
                    encoder.stream,
                    r,
                    done.bytes,
                    one.bytes,
                );
                item.lemma_image_keeps_settings(done.state);
            }
        }
        match r {
            Ok(()) => {},
            Err(e) => {
                proof {
                    if let Ok(whole) = items_image(all, state) {
                        let part = items_image(all.take(i + 1), state)->Ok_0;
                        assert(part.bytes.len() <= whole.bytes.len());
                    }
                    if item.image(done.state) is Err {
                        lemma_items_error(all, state, i as int);
                    }
                }
                return Err(e);
            },
        }
        i = i + 1;
    }
    proof {
        assert(all.take(n as int) =~= all);
    }
    Ok(())
}

impl<T: Encode> Encode for Vec<T> {
    open spec fn image(&self, state: State) -> Result<Image, EncodingError> {
        vec_image(self@, state)
    }

    proof fn lemma_image_keeps_settings(&self, state: State) {
        lemma_items_keep_settings(self@, state.without_size());
    }

    /// Writes the length of the vector as a size, and then its items.
    fn encode<'a, W: Write, U>(&self, encoder: &mut Encoder<'a, W, U>) -> (r: Result<
        (),
        EncodingError,
    >) {
        let ghost state = old(encoder).ctxt.spec_state();
        let n = self.len();
        match encoder.write_usize(n) {
            Ok(()) => {},
            Err(e) => {
                return Err(e);
            },
        }
        let ghost prefix = size_image(state, n)->Ok_0;
        let ghost mid = encoder.stream;
        let r = encode_items(encoder, self.as_slice());
        proof {
            lemma_items_keep_settings(self@, state.without_size());
            if let Ok(body) = items_image(self@, state.without_size()) {
                lemma_parts_compose(old(encoder).stream, mid, encoder.stream, r, prefix, body.bytes);
            }
        }
        r
    }
}

impl<T: Encode, const N: usize> Encode for [T; N] {
    open spec fn image(&self, state: State) -> Result<Image, EncodingError> {
        items_image(self@, state)
    }

    proof fn lemma_image_keeps_settings(&self, state: State) {
        lemma_items_keep_settings(self@, state);
    }

    /// Writes the items of the array, with no length before them.
    fn encode<'a, W: Write, U>(&self, encoder: &mut Encoder<'a, W, U>) -> (r: Result<
        (),
        EncodingError,
    >) {
        encode_items(encoder, self.as_slice())
    }
}

/// What encoding an option calls for: whether it holds a value, as a
/// boolean, and then the value if it does.
pub open spec fn option_image<T: Encode>(value: Option<T>, state: State) -> Result<
    Image,
    EncodingError,
> {
    match bool_image(state, value is Some) {
        Err(e) => Err(e),
        Ok(flag) => match value {
            None => Ok(Image { bytes: flag, state: state.without_bool() }),
            Some(v) => match v.image(state.without_bool()) {
                Err(e) => Err(e),
                Ok(inner) => Ok(Image { bytes: flag + inner.bytes, state: inner.state }),
            },
        },
    }
}

impl<T: Encode> Encode for Option<T> {
    open spec fn image(&self, state: State) -> Result<Image, EncodingError> {
        option_image(*self, state)
    }

    proof fn lemma_image_keeps_settings(&self, state: State) {
        if let Some(v) = self {
            v.lemma_image_keeps_settings(state.without_bool());
        }
    }

    fn encode<'a, W: Write, U>(&self, encoder: &mut Encoder<'a, W, U>) -> (r: Result<
        (),
        EncodingError,
    >) {
        let ghost state = old(encoder).ctxt.spec_state();
        match self {
            None => encoder.write_bool(false),
            Some(v) => {
                match encoder.write_bool(true) {
                    Ok(()) => {},
                    Err(e) => {
                        return Err(e);
                    },
                }
                let ghost flag = bool_image(state, true)->Ok_0;
                let ghost before = encoder.stream;
                let r = v.encode(encoder);
                proof {
                    if let Ok(inner) = v.image(state.without_bool()) {
                        lemma_parts_compose(
                            old(encoder).stream,
                            before,
                            encoder.stream,
                            r,
                            flag,
                            inner.bytes,
                        );
                        v.lemma_image_keeps_settings(state.without_bool());
                    }
                }
                r
            },
        }
    }
}

/// What was read of a run of items: their values, how many bytes they took,
/// and the state that the last of them left.
pub struct Run<M> {
    pub values: Seq<M>,
    pub len: nat,
    pub state: State,
}

/// What the bytes `s` stand for as `n` items one after the other, each read
/// under the state that the one before it leaves.
pub open spec fn items_parse<T: Decode>(state: State, s: Seq<u8>, n: nat) -> Result<
    Run<T::Model>,
    EncodingError,
>
    decreases n,
{
    if n == 0 {
        Ok(Run { values: Seq::empty(), len: 0, state })
    } else {
        match items_parse::<T>(state, s, (n - 1) as nat) {
            Err(e) => Err(e),
            Ok(before) => match T::parse(before.state, s.skip(before.len as int)) {
                Err(e) => Err(e),
                Ok(last) => Ok(
                    Run {
                        values: before.values.push(last.value),
                        len: before.len + last.len,
                        state: T::state_after(before.state, s.skip(before.len as int)),
                    },
                ),
            },
        }
    }
}

/// Reading items leaves the settings as they were.
pub proof fn lemma_items_parse_keeps_settings<T: Decode>(state: State, s: Seq<u8>, n: nat)
    ensures
        items_parse::<T>(state, s, n) matches Ok(run) ==> run.state.settings == state.settings,
    decreases n,
{
    if n > 0 {
        lemma_items_parse_keeps_settings::<T>(state, s, (n - 1) as nat);
        if let Ok(before) = items_parse::<T>(state, s, (n - 1) as nat) {
            T::lemma_parse_keeps_settings(before.state, s.skip(before.len as int));
        }
    }
}

/// An error among the first items is the error of every longer run.
pub proof fn lemma_items_parse_error_stays<T: Decode>(state: State, s: Seq<u8>, k: nat, n: nat)
    requires
        k <= n,
        items_parse::<T>(state, s, k) is Err,
    ensures
        items_parse::<T>(state, s, n) == items_parse::<T>(state, s, k),
    decreases n,
{
    if k < n {
        lemma_items_parse_error_stays::<T>(state, s, k, (n - 1) as nat);
    }
}

/// What the bytes `s` stand for as a vector: a size, and then that many
/// items. The run that is returned counts the bytes of the size too.
pub open spec fn vec_parse<T: Decode>(state: State, s: Seq<u8>) -> Result<
    Run<T::Model>,
    EncodingError,
> {
    match size_parse(state, s) {
        Err(e) => Err(e),
        Ok(size) => match items_parse::<T>(
            state.without_size(),
            s.skip(size.len as int),
            size.value as nat,
        ) {
            Err(e) => Err(e),
            Ok(run) => Ok(Run { values: run.values, len: size.len + run.len, state: run.state }),
        },
    }
}

/// The mathematical values of the items of a vector.
pub open spec fn models<T: Decode>(items: Seq<T>) -> Seq<T::Model> {
    Seq::new(items.len(), |i: int| items[i].model())
}

/// A run of items as one value: the values of the items, and the bytes that
/// they took together.
pub open spec fn run_parsed<M>(run: Result<Run<M>, EncodingError>) -> Result<
    Parsed<Seq<M>>,
    EncodingError,
> {
    match run {
        Ok(run) => Ok(Parsed { value: run.values, len: run.len }),
        Err(e) => Err(e),
    }
}

/// Reads `n` items one after the other, with no length before them.
pub fn decode_items<'a, T: Decode, R: Read, U>(decoder: &mut Encoder<'a, R, U>, n: usize) -> (r:
    Result<Vec<T>, EncodingError>)
    ensures
        reads(
            old(decoder).stream,
            final(decoder).stream,
            r,
            |v: Vec<T>| models(v@),
            run_parsed(
                items_parse::<T>(
                    old(decoder).ctxt.spec_state(),
                    old(decoder).stream.remaining(),
                    n as nat,
                ),
            ),
        ),
        r matches Ok(v) ==> v@.len() == n,
        r is Ok ==> final(decoder).ctxt.spec_state() == items_parse::<T>(
            old(decoder).ctxt.spec_state(),
            old(decoder).stream.remaining(),
            n as nat,
        )->Ok_0.state && final(decoder).ctxt.user == old(decoder).ctxt.user,
        r is Ok ==> final(decoder).ctxt.settings == old(decoder).ctxt.settings,
{
    let ghost start = old(decoder).ctxt.spec_state();
    let ghost s1 = old(decoder).stream.remaining();
    let mut out: Vec<T> = Vec::new();
    let mut i: usize = 0;
    proof {
        assert(s1.skip(0) =~= s1);
        assert(models::<T>(out@) =~= Seq::<T::Model>::empty());
    }
    while i < n
        invariant
            i <= n,
            out@.len() == i,
            start == old(decoder).ctxt.spec_state(),
            s1 == old(decoder).stream.remaining(),
            decoder.stream.reliable() == old(decoder).stream.reliable(),
            decoder.ctxt.user == old(decoder).ctxt.user,
            decoder.ctxt.settings == old(decoder).ctxt.settings,
            items_parse::<T>(start, s1, i as nat) is Ok,
            items_parse::<T>(start, s1, i as nat)->Ok_0.values == models::<T>(out@),
            items_parse::<T>(start, s1, i as nat)->Ok_0.state == decoder.ctxt.spec_state(),
            items_parse::<T>(start, s1, i as nat)->Ok_0.len <= s1.len(),
            decoder.stream.remaining() == s1.skip(
                items_parse::<T>(start, s1, i as nat)->Ok_0.len as int,
            ),
        decreases n - i,
    {
        let ghost done = items_parse::<T>(start, s1, i as nat)->Ok_0;
        let ghost before = out@;
        let item = match T::decode(decoder) {
            Ok(item) => item,
            Err(e) => {
                proof {
                    if old(decoder).stream.reliable() {
                        lemma_items_parse_error_stays::<T>(start, s1, (i + 1) as nat, n as nat);
                    }
                }
                return Err(e);
            },
        };
        out.push(item);
        proof {
            let one = T::parse(done.state, s1.skip(done.len as int))->Ok_0;
            assert(s1.skip(done.len as int).skip(one.len as int) =~= s1.skip(
                (done.len + one.len) as int,
            ));
            assert(models::<T>(out@) =~= models::<T>(before).push(item.model()));
            T::lemma_parse_keeps_settings(done.state, s1.skip(done.len as int));
        }
        i = i + 1;
    }
    Ok(out)
}

impl<T: Decode> Decode for Vec<T> {
    type Model = Seq<T::Model>;

    open spec fn model(&self) -> Seq<T::Model> {
        models(self@)
    }

    open spec fn parse(state: State, s: Seq<u8>) -> Result<Parsed<Seq<T::Model>>, EncodingError> {
        run_parsed(vec_parse::<T>(state, s))
    }

    open spec fn state_after(state: State, s: Seq<u8>) -> State {
        match vec_parse::<T>(state, s) {
            Ok(run) => run.state,
            Err(_) => state,
        }
    }

    proof fn lemma_parse_keeps_settings(state: State, s: Seq<u8>) {
        if let Ok(size) = size_parse(state, s) {
            lemma_items_parse_keeps_settings::<T>(
                state.without_size(),
                s.skip(size.len as int),
                size.value as nat,
            );
        }
    }

    /// Reads a size, and then that many items.
    fn decode<'a, R: Read, U>(decoder: &mut Encoder<'a, R, U>) -> (r: Result<Self, EncodingError>) {
        let ghost state = old(decoder).ctxt.spec_state();
        let ghost s0 = old(decoder).stream.remaining();
        let n = match decoder.read_usize() {
            Ok(n) => n,
            Err(e) => {
                return Err(e);
            },
        };
        let ghost head = size_parse(state, s0)->Ok_0.len;
        let r = decode_items::<T, R, U>(decoder, n);
        proof {
            if r is Ok {
                let run = items_parse::<T>(state.without_size(), s0.skip(head as int), n as nat)->Ok_0;
                assert(s0.skip(head as int).skip(run.len as int) =~= s0.skip(
                    (head + run.len) as int,
                ));
            }
        }
        r
    }
}

/// What the bytes `s` stand for as an array of `n` items: the items one
/// after the other, with no length before them.
pub open spec fn array_parse<T: Decode>(state: State, s: Seq<u8>, n: nat) -> Result<
    Parsed<Seq<T::Model>>,
    EncodingError,
> {
    run_parsed(items_parse::<T>(state, s, n))
}

/// `array_init::from_iter` on a vector: an array of the first `N` items of
/// the vector, in their order, or nothing where the vector holds fewer.
#[verifier::external_body]
fn array_of<T, const N: usize>(items: Vec<T>) -> (r: Option<[T; N]>)
    ensures
        match r {
            Some(array) => items@.len() >= N && array@ == items@.take(N as int),
            None => items@.len() < N,
        },
{
    array_init::from_iter(items)
}

impl<T: Decode, const N: usize> Decode for [T; N] {
    type Model = Seq<T::Model>;

    open spec fn model(&self) -> Seq<T::Model> {
        models(self@)
    }

    open spec fn parse(state: State, s: Seq<u8>) -> Result<Parsed<Seq<T::Model>>, EncodingError> {
        array_parse::<T>(state, s, N as nat)
    }

    open spec fn state_after(state: State, s: Seq<u8>) -> State {
        match items_parse::<T>(state, s, N as nat) {
            Ok(run) => run.state,
            Err(_) => state,
        }
    }

    proof fn lemma_parse_keeps_settings(state: State, s: Seq<u8>) {
        lemma_items_parse_keeps_settings::<T>(state, s, N as nat);
    }

    /// Reads as many items as the array holds, with no length before them.
    fn decode<'a, R: Read, U>(decoder: &mut Encoder<'a, R, U>) -> (r: Result<Self, EncodingError>) {
        let items = match decode_items::<T, R, U>(decoder, N) {
            Ok(items) => items,
            Err(e) => {
                return Err(e);
            },
        };
        let ghost read = items@;
        match array_of::<T, N>(items) {
            Some(array) => {
                assert(read.take(N as int) =~= read);
                Ok(array)
            },
            None => Err(EncodingError::UnexpectedEnd),
        }
    }
}

/// What the bytes `s` stand for as an option: a boolean, and then a value if
/// the boolean is true.
pub open spec fn option_parse<T: Decode>(state: State, s: Seq<u8>) -> Result<
    Parsed<Option<T::Model>>,
    EncodingError,
> {
    match bool_parse(state, s) {
        Err(e) => Err(e),
        Ok(flag) => if flag.value {
            match T::parse(state.without_bool(), s.skip(flag.len as int)) {
                Err(e) => Err(e),
                Ok(inner) => Ok(Parsed { value: Some(inner.value), len: flag.len + inner.len }),
            }
        } else {
            Ok(Parsed { value: None, len: flag.len })
        },
    }
}

impl<T: Decode> Decode for Option<T> {
    type Model = Option<T::Model>;

    open spec fn model(&self) -> Option<T::Model> {
        match self {
            Some(v) => Some(v.model()),
            None => None,
        }
    }

    open spec fn parse(state: State, s: Seq<u8>) -> Result<
        Parsed<Option<T::Model>>,
        EncodingError,
    > {
        option_parse::<T>(state, s)
    }

    open spec fn state_after(state: State, s: Seq<u8>) -> State {
        match bool_parse(state, s) {
            Ok(flag) => if flag.value {
                T::state_after(state.without_bool(), s.skip(flag.len as int))
            } else {
                state.without_bool()
            },
            Err(_) => state,
        }
    }

    proof fn lemma_parse_keeps_settings(state: State, s: Seq<u8>) {
        if let Ok(flag) = bool_parse(state, s) {
            T::lemma_parse_keeps_settings(state.without_bool(), s.skip(flag.len as int));
        }
    }

    fn decode<'a, R: Read, U>(decoder: &mut Encoder<'a, R, U>) -> (r: Result<Self, EncodingError>) {
        let ghost state = old(decoder).ctxt.spec_state();
        let ghost s0 = old(decoder).stream.remaining();
        let present = match decoder.read_bool() {
            Ok(present) => present,
            Err(e) => {
                return Err(e);
            },
        };
        let ghost head = bool_parse(state, s0)->Ok_0.len;
        if present {
            match T::decode(decoder) {
                Ok(v) => {
                    proof {
                        let inner = T::parse(state.without_bool(), s0.skip(head as int))->Ok_0;
                        assert(s0.skip(head as int).skip(inner.len as int) =~= s0.skip(
                            (head + inner.len) as int,
                        ));
                        T::lemma_parse_keeps_settings(state.without_bool(), s0.skip(head as int));
                    }
                    Ok(Some(v))
                },
                Err(e) => Err(e),
            }
        } else {
            Ok(None)
        }
    }
}

/// What encoding a pair calls for: the first, and then the second under
/// the state that the first leaves.
pub open spec fn pair_image<A: Encode, B: Encode>(pair: (A, B), state: State) -> Result<
    Image,
    EncodingError,
> {
    match pair.0.image(state) {
        Err(e) => Err(e),
        Ok(first) => match pair.1.image(first.state) {
            Err(e) => Err(e),
            Ok(second) => Ok(Image { bytes: first.bytes + second.bytes, state: second.state }),
        },
    }
}

impl<A: Encode, B: Encode> Encode for (A, B) {
    open spec fn image(&self, state: State) -> Result<Image, EncodingError> {
        pair_image(*self, state)
    }

    proof fn lemma_image_keeps_settings(&self, state: State) {
        self.0.lemma_image_keeps_settings(state);
        if let Ok(first) = self.0.image(state) {
            self.1.lemma_image_keeps_settings(first.state);
        }
    }

    /// Writes the first of the pair, and then the second.
    fn encode<'a, W: Write, U>(&self, encoder: &mut Encoder<'a, W, U>) -> (r: Result<
        (),
        EncodingError,
    >) {
        let ghost state = old(encoder).ctxt.spec_state();
        match self.0.encode(encoder) {
            Ok(()) => {},
            Err(e) => {
                proof {
                    if let Ok(first) = self.0.image(state) {
                        if let Ok(second) = self.1.image(first.state) {
                            assert((first.bytes + second.bytes).len() >= first.bytes.len());
                        }
                    }
                }
                return Err(e);
            },
        }
        let ghost first = self.0.image(state)->Ok_0;
        let ghost before = encoder.stream;
        let r = self.1.encode(encoder);
        proof {
            self.0.lemma_image_keeps_settings(state);
            if let Ok(second) = self.1.image(first.state) {
                lemma_parts_compose(
                    old(encoder).stream,
                    before,
                    encoder.stream,
                    r,
                    first.bytes,
                    second.bytes,
                );
                self.1.lemma_image_keeps_settings(first.state);
            }
        }
        r
    }
}

/// What the bytes `s` stand for as a pair: the first, and then the second
/// under the state that the first leaves.
pub open spec fn pair_parse<A: Decode, B: Decode>(state: State, s: Seq<u8>) -> Result<
    Parsed<(A::Model, B::Model)>,
    EncodingError,
> {
    match A::parse(state, s) {
        Err(e) => Err(e),
        Ok(first) => match B::parse(A::state_after(state, s), s.skip(first.len as int)) {
            Err(e) => Err(e),
            Ok(second) => Ok(
                Parsed { value: (first.value, second.value), len: first.len + second.len },
            ),
        },
    }
}

impl<A: Decode, B: Decode> Decode for (A, B) {
    type Model = (A::Model, B::Model);

    open spec fn model(&self) -> (A::Model, B::Model) {
        (self.0.model(), self.1.model())
    }

    open spec fn parse(state: State, s: Seq<u8>) -> Result<
        Parsed<(A::Model, B::Model)>,
        EncodingError,
    > {
        pair_parse::<A, B>(state, s)
    }

    open spec fn state_after(state: State, s: Seq<u8>) -> State {
        match A::parse(state, s) {
            Ok(first) => B::state_after(A::state_after(state, s), s.skip(first.len as int)),
            Err(_) => state,
        }
    }

    proof fn lemma_parse_keeps_settings(state: State, s: Seq<u8>) {
        A::lemma_parse_keeps_settings(state, s);
        if let Ok(first) = A::parse(state, s) {
            B::lemma_parse_keeps_settings(A::state_after(state, s), s.skip(first.len as int));
        }
    }

    /// Reads the first of the pair, and then the second.
    fn decode<'a, R: Read, U>(decoder: &mut Encoder<'a, R, U>) -> (r: Result<Self, EncodingError>) {
        let ghost state = old(decoder).ctxt.spec_state();
        let ghost s0 = old(decoder).stream.remaining();
        let first = match A::decode(decoder) {
            Ok(first) => first,
            Err(e) => {
                return Err(e);
            },
        };
        let ghost head = A::parse(state, s0)->Ok_0.len;
        match B::decode(decoder) {
            Ok(second) => {
                proof {
                    let tail = B::parse(A::state_after(state, s0), s0.skip(head as int))->Ok_0;
                    assert(s0.skip(head as int).skip(tail.len as int) =~= s0.skip(
                        (head + tail.len) as int,
                    ));
                    A::lemma_parse_keeps_settings(state, s0);
                    B::lemma_parse_keeps_settings(A::state_after(state, s0), s0.skip(head as int));
                }
                Ok((first, second))
            },
            Err(e) => Err(e),
        }
    }
}

/// The place of the first null byte of `s`, from `i` on.
pub open spec fn null_from(s: Seq<u8>, i: int) -> Option<int>
    decreases s.len() - i,
{
    if i < 0 || i >= s.len() {
        None
    } else if s[i] == 0 {
        Some(i)
    } else {
        null_from(s, i + 1)
    }
}

/// Finds the first null byte of `bytes`.
pub fn first_null(bytes: &[u8]) -> (r: Option<usize>)
    ensures
        match r {
            Some(at) => null_from(bytes@, 0) == Some(at as int),
            None => null_from(bytes@, 0) is None,
        },
{
    let mut i: usize = 0;
    while i < bytes.len()
        invariant
            i <= bytes@.len(),
            null_from(bytes@, 0) == null_from(bytes@, i as int),
        decreases bytes@.len() - i,
    {
        if bytes[i] == 0 {
            return Some(i);
        }
        i += 1;
    }
    None
}

/// What encoding a null-terminated string calls for, given its bytes
/// without the terminator. With the size channel armed the bytes stand
/// alone, and the channel is spent: the reader knows their number.
/// Otherwise a null byte follows them. Bytes that hold a null are no such
/// string.
pub open spec fn cstr_image(state: State, bytes: Seq<u8>) -> Result<Image, EncodingError> {
    if null_from(bytes, 0) is Some {
        Err(EncodingError::StringError(StringError::InvalidCString))
    } else if state.size_flatten is Some {
        Ok(Image { bytes, state: state.without_size() })
    } else {
        Ok(Image { bytes: bytes.push(0), state: state.without_size() })
    }
}

/// Writes a null-terminated string, given its bytes without the
/// terminator. The bytes are written in one piece, or not at all; bytes that
/// hold a null fail with `InvalidCString`, and nothing has changed.
pub fn encode_cstr<'a, W: Write, U>(encoder: &mut Encoder<'a, W, U>, bytes: &[u8]) -> (r: Result<
    (),
    EncodingError,
>)
    ensures
        encoded(*old(encoder), *final(encoder), r, cstr_image(old(encoder).ctxt.spec_state(), bytes@)),
        match cstr_image(old(encoder).ctxt.spec_state(), bytes@) {
            Ok(image) => wrote(old(encoder).stream, final(encoder).stream, r, image.bytes)
                && final(encoder).ctxt == old(encoder).ctxt.without_size(),
            Err(e) => r == Err::<(), EncodingError>(e) && *final(encoder) == *old(encoder),
        },
{
    if first_null(bytes).is_some() {
        return Err(EncodingError::StringError(StringError::InvalidCString));
    }
    match encoder.ctxt.size_flatten() {
        Some(_) => encoder.write_bytes(bytes),
        None => {
            let mut framed = vstd::slice::slice_to_vec(bytes);
            framed.push(0);
            encoder.write_bytes(framed.as_slice())
        },
    }
}

/// What the bytes `s` stand for as a null-terminated string: its bytes
/// without the terminator. With the size channel armed the string is as
/// many bytes as the channel holds, none of them null, and no terminator
/// follows. Otherwise it is the bytes before the first null, which is
/// consumed with them.
pub open spec fn cstr_parse(state: State, s: Seq<u8>) -> Result<Parsed<Seq<u8>>, EncodingError> {
    match state.size_flatten {
        Some(n) => if s.len() < n {
            Err(EncodingError::UnexpectedEnd)
        } else if null_from(s.take(n as int), 0) is Some {
            Err(EncodingError::StringError(StringError::InvalidCString))
        } else {
            Ok(Parsed { value: s.take(n as int), len: n as nat })
        },
        None => match null_from(s, 0) {
            None => Err(EncodingError::UnexpectedEnd),
            Some(at) => Ok(Parsed { value: s.take(at), len: (at + 1) as nat }),
        },
    }
}

/// Reads a null-terminated string and returns its bytes without the
/// terminator. The size channel is empty afterwards.
pub fn decode_cstring<'a, R: Read, U>(decoder: &mut Encoder<'a, R, U>) -> (r: Result<
    Vec<u8>,
    EncodingError,
>)
    ensures
        reads(
            old(decoder).stream,
            final(decoder).stream,
            r,
            |v: Vec<u8>| v@,
            cstr_parse(old(decoder).ctxt.spec_state(), old(decoder).stream.remaining()),
        ),
        final(decoder).ctxt == old(decoder).ctxt.without_size(),
{
    let ghost s0 = old(decoder).stream.remaining();
    let mut out: Vec<u8> = Vec::new();
    match decoder.ctxt.size_flatten() {
        Some(n) => {
            let mut i: usize = 0;
            while i < n
                invariant
                    i <= n,
                    i <= s0.len(),
                    s0 == old(decoder).stream.remaining(),
                    old(decoder).ctxt.spec_state().size_flatten == Some(n),
                    out@ == s0.take(i as int),
                    decoder.stream.remaining() == s0.skip(i as int),
                    decoder.stream.reliable() == old(decoder).stream.reliable(),
                    decoder.ctxt == old(decoder).ctxt.without_size(),
                decreases n - i,
            {
                let byte = match decoder.read_byte() {
                    Ok(byte) => byte,
                    Err(e) => {
                        return Err(e);
                    },
                };
                out.push(byte);
                proof {
                    assert(s0.take(i + 1) =~= s0.take(i as int).push(s0[i as int]));
                    assert(s0.skip(i as int).skip(1) =~= s0.skip(i + 1));
                }
                i += 1;
            }
            if first_null(out.as_slice()).is_some() {
                return Err(EncodingError::StringError(StringError::InvalidCString));
            }
            Ok(out)
        },
        None => {
            loop
                invariant
                    out@.len() <= s0.len(),
                    s0 == old(decoder).stream.remaining(),
                    old(decoder).ctxt.spec_state().size_flatten is None,
                    out@ == s0.take(out@.len() as int),
                    decoder.stream.remaining() == s0.skip(out@.len() as int),
                    decoder.stream.reliable() == old(decoder).stream.reliable(),
                    decoder.ctxt == old(decoder).ctxt.without_size(),
                    null_from(s0, 0) == null_from(s0, out@.len() as int),
                decreases s0.len() - out@.len(),
            {
                let ghost i = out@.len() as int;
                let byte = match decoder.read_byte() {
                    Ok(byte) => byte,
                    Err(e) => {
                        return Err(e);
                    },
                };
                proof {
                    assert(s0.skip(i).skip(1) =~= s0.skip(i + 1));
                }
                if byte == 0 {
                    return Ok(out);
                }
                out.push(byte);
                proof {
                    assert(s0.take(i + 1) =~= s0.take(i).push(s0[i]));
                }
            }
        },
    }
}

/// What the bytes `s` stand for as a run of bytes to be referenced in
/// place: a size, and then that many bytes. Once the size is read, a number
/// encoding other than the fixed one is an error, whatever follows.
pub open spec fn bytes_parse(state: State, s: Seq<u8>) -> Result<Parsed<Seq<u8>>, EncodingError> {
    match size_parse(state, s) {
        Err(e) => Err(e),
        Ok(size) => if state.settings.num_repr.num_encoding != NumEncoding::Fixed {
            Err(
                EncodingError::BorrowError(
                    BorrowError::NonBorrowableNumEncoding {
                        num_encoding: state.settings.num_repr.num_encoding,
                    },
                ),
            )
        } else if size.len + size.value <= s.len() {
            Ok(
                Parsed {
                    value: s.subrange(size.len as int, size.len + size.value),
                    len: size.len + size.value as nat,
                },
            )
        } else {
            Err(EncodingError::UnexpectedEnd)
        },
    }
}

impl<'data> BorrowDecode<'data> for &'data [u8] {
    type Model = Seq<u8>;

    open spec fn model(&self) -> Seq<u8> {
        self@
    }

    open spec fn parse(state: State, s: Seq<u8>) -> Result<Parsed<Seq<u8>>, EncodingError> {
        bytes_parse(state, s)
    }

    open spec fn state_after(state: State, s: Seq<u8>) -> State {
        state.without_size()
    }

    proof fn lemma_parse_keeps_settings(state: State, s: Seq<u8>) {
    }

    /// Reads a size and references that many bytes of the data. On a
    /// reliable stream this succeeds exactly where the bytes stand for a
    /// run, and fails with the error of the bytes otherwise.
    fn borrow_decode<'a, R: BorrowRead<'data>, U>(decoder: &mut Encoder<'a, R, U>) -> (r: Result<
        Self,
        EncodingError,
    >)
        ensures
            reads(
                old(decoder).stream,
                final(decoder).stream,
                r,
                |v: &'data [u8]| v@,
                bytes_parse(old(decoder).ctxt.spec_state(), old(decoder).stream.remaining()),
            ),
            r is Ok ==> final(decoder).ctxt == old(decoder).ctxt.without_size(),
    {
        let ghost s0 = old(decoder).stream.remaining();
        let len = match decoder.read_usize() {
            Ok(len) => len,
            Err(e) => {
                return Err(e);
            },
        };
        let ghost head = size_parse(old(decoder).ctxt.spec_state(), s0)->Ok_0.len;
        let num_encoding = decoder.ctxt.settings.num_repr.num_encoding;
        match decoder.borrow_u8_slice(len, num_encoding) {
            Ok(bytes) => {
                proof {
                    assert(s0.skip(head as int).take(len as int) =~= s0.subrange(
                        head as int,
                        head + len,
                    ));
                    assert(s0.skip(head as int).skip(len as int) =~= s0.skip(head + len));
                }
                Ok(bytes)
            },
            Err(e) => Err(e),
        }
    }
}

} // verus!
