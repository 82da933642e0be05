//! Values read back as written: for each type that the library encodes and
//! decodes, the bytes that stand for a value, followed by anything, stand
//! for that value again; and what the entry points make of that.

use vstd::prelude::*;
use crate::codec::delivered;
use crate::codec::Decode;
use crate::codec::Encode;
use crate::containers::items_image;
use crate::containers::items_parse;
use crate::containers::models;
use crate::containers::Run;
use crate::context::State;
use crate::encoder::write::bool_image;
use crate::encoder::write::size_image;
use crate::error::EncodingError;
use crate::io::Read;
use crate::io::Write;
use crate::laws::law_bool_roundtrip;
use crate::laws::law_char_roundtrip;
use crate::laws::law_isize_roundtrip;
use crate::laws::law_signed_roundtrip;
use crate::laws::law_size_roundtrip;
use crate::laws::law_str_roundtrip;
use crate::laws::law_unsigned_roundtrip;
use crate::opaque::lemma_int_bounds;
use crate::settings::BitWidth;
use crate::wire::number::reads;
use crate::wire::number::Parsed;

verus! {

/// Whether `x` reads back as written under `state`, with `rest` behind it:
/// where `x` can be encoded, its bytes followed by `rest` stand for `x` and
/// take just those bytes, and reading them leaves the state that writing
/// them leaves.
pub open spec fn reads_back<T: Encode + Decode>(x: T, state: State, rest: Seq<u8>) -> bool {
    x.image(state) is Ok ==> T::parse(state, x.image(state)->Ok_0.bytes + rest) == Ok::<
        Parsed<T::Model>,
        EncodingError,
    >(Parsed { value: x.model(), len: x.image(state)->Ok_0.bytes.len() }) && T::state_after(
        state,
        x.image(state)->Ok_0.bytes + rest,
    ) == x.image(state)->Ok_0.state
}

/// **Every `u8` reads back as written**, under every state.
pub proof fn law_u8_reads_back(x: u8, state: State, rest: Seq<u8>)
    ensures
        reads_back(x, state, rest),
{
    lemma_int_bounds();
    law_unsigned_roundtrip(
        x as nat,
        BitWidth::Bit8,
        state.settings.num_repr.num_encoding,
        state.settings.num_repr.endianness,
        rest,
    );
}

/// **Every `u16` reads back as written**, under every state.
pub proof fn law_u16_reads_back(x: u16, state: State, rest: Seq<u8>)
    ensures
        reads_back(x, state, rest),
{
    lemma_int_bounds();
    law_unsigned_roundtrip(
        x as nat,
        BitWidth::Bit16,
        state.settings.num_repr.num_encoding,
        state.settings.num_repr.endianness,
        rest,
    );
}

/// **Every `u32` reads back as written**, under every state.
pub proof fn law_u32_reads_back(x: u32, state: State, rest: Seq<u8>)
    ensures
        reads_back(x, state, rest),
{
    lemma_int_bounds();
    law_unsigned_roundtrip(
        x as nat,
        BitWidth::Bit32,
        state.settings.num_repr.num_encoding,
        state.settings.num_repr.endianness,
        rest,
    );
}

/// **Every `u64` reads back as written**, under every state.
pub proof fn law_u64_reads_back(x: u64, state: State, rest: Seq<u8>)
    ensures
        reads_back(x, state, rest),
{
    lemma_int_bounds();
    law_unsigned_roundtrip(
        x as nat,
        BitWidth::Bit64,
        state.settings.num_repr.num_encoding,
        state.settings.num_repr.endianness,
        rest,
    );
}

/// **Every `u128` reads back as written**, under every state.
pub proof fn law_u128_reads_back(x: u128, state: State, rest: Seq<u8>)
    ensures
        reads_back(x, state, rest),
{
    lemma_int_bounds();
    law_unsigned_roundtrip(
        x as nat,
        BitWidth::Bit128,
        state.settings.num_repr.num_encoding,
        state.settings.num_repr.endianness,
        rest,
    );
}

/// **Every `i8` reads back as written**, under every state.
pub proof fn law_i8_reads_back(x: i8, state: State, rest: Seq<u8>)
    ensures
        reads_back(x, state, rest),
{
    lemma_int_bounds();
    law_signed_roundtrip(
        x as int,
        BitWidth::Bit8,
        state.settings.num_repr.num_encoding,
        state.settings.num_repr.endianness,
        rest,
    );
}

/// **Every `i16` reads back as written**, under every state.
pub proof fn law_i16_reads_back(x: i16, state: State, rest: Seq<u8>)
    ensures
        reads_back(x, state, rest),
{
    lemma_int_bounds();
    law_signed_roundtrip(
        x as int,
        BitWidth::Bit16,
        state.settings.num_repr.num_encoding,
        state.settings.num_repr.endianness,
        rest,
    );
}

/// **Every `i32` reads back as written**, under every state.
pub proof fn law_i32_reads_back(x: i32, state: State, rest: Seq<u8>)
    ensures
        reads_back(x, state, rest),
{
    lemma_int_bounds();
    law_signed_roundtrip(
        x as int,
        BitWidth::Bit32,
        state.settings.num_repr.num_encoding,
        state.settings.num_repr.endianness,
        rest,
    );
}

/// **Every `i64` reads back as written**, under every state.
pub proof fn law_i64_reads_back(x: i64, state: State, rest: Seq<u8>)
    ensures
        reads_back(x, state, rest),
{
    lemma_int_bounds();
    law_signed_roundtrip(
        x as int,
        BitWidth::Bit64,
        state.settings.num_repr.num_encoding,
        state.settings.num_repr.endianness,
        rest,
    );
}

/// **Every `i128` reads back as written**, under every state.
pub proof fn law_i128_reads_back(x: i128, state: State, rest: Seq<u8>)
    ensures
        reads_back(x, state, rest),
{
    lemma_int_bounds();
    law_signed_roundtrip(
        x as int,
        BitWidth::Bit128,
        state.settings.num_repr.num_encoding,
        state.settings.num_repr.endianness,
        rest,
    );
}

/// **Every size reads back as written**, wherever it can be written.
pub proof fn law_usize_reads_back(x: usize, state: State, rest: Seq<u8>)
    ensures
        reads_back(x, state, rest),
{
    if x.image(state) is Ok {
        law_size_roundtrip(state, x, rest);
    }
}

/// **Every signed size reads back as written**, wherever it can be written.
pub proof fn law_isize_reads_back(x: isize, state: State, rest: Seq<u8>)
    ensures
        reads_back(x, state, rest),
{
    if x.image(state) is Ok {
        law_isize_roundtrip(state, x, rest);
    }
}

/// **Every boolean reads back as written**, wherever it can be written.
pub proof fn law_bool_reads_back(x: bool, state: State, rest: Seq<u8>)
    ensures
        reads_back(x, state, rest),
{
    if x.image(state) is Ok {
        law_bool_roundtrip(state, x, rest);
    }
}

/// **Every char reads back as written**, under every state.
pub proof fn law_char_reads_back(x: char, state: State, rest: Seq<u8>)
    ensures
        reads_back(x, state, rest),
{
    law_char_roundtrip(x, state.settings.string_repr, rest);
}

/// **Every string reads back as written**, wherever it can be written.
pub proof fn law_string_reads_back(x: String, state: State, rest: Seq<u8>)
    ensures
        reads_back(x, state, rest),
{
    if x.image(state) is Ok {
        law_str_roundtrip(state, x@, rest);
    }
}

/// **An option reads back as written** where the value that it holds does.
pub proof fn law_option_reads_back<T: Encode + Decode>(x: Option<T>, state: State, rest: Seq<u8>)
    requires
        x matches Some(v) ==> reads_back(v, state.without_bool(), rest),
    ensures
        reads_back(x, state, rest),
{
    if let Ok(image) = x.image(state) {
        let flag = bool_image(state, x is Some)->Ok_0;
        match x {
            None => {
                law_bool_roundtrip(state, false, rest);
            },
            Some(v) => {
                let inner = v.image(state.without_bool())->Ok_0;
                law_bool_roundtrip(state, true, inner.bytes + rest);
                assert(flag + inner.bytes + rest =~= flag + (inner.bytes + rest));
                assert((flag + (inner.bytes + rest)).skip(flag.len() as int) =~= inner.bytes
                    + rest);
            },
        }
    }
}

/// **A pair reads back as written** where its first does with the bytes of
/// the second behind it, and its second does under the state that the first
/// leaves.
pub proof fn law_pair_reads_back<A: Encode + Decode, B: Encode + Decode>(
    x: (A, B),
    state: State,
    rest: Seq<u8>,
)
    requires
        x.0.image(state) matches Ok(first) ==> reads_back(x.1, first.state, rest) && (x.1.image(
            first.state,
        ) matches Ok(second) ==> reads_back(x.0, state, second.bytes + rest)),
    ensures
        reads_back(x, state, rest),
{
    if let Ok(image) = x.image(state) {
        let first = x.0.image(state)->Ok_0;
        let second = x.1.image(first.state)->Ok_0;
        assert(first.bytes + second.bytes + rest =~= first.bytes + (second.bytes + rest));
        assert((first.bytes + (second.bytes + rest)).skip(first.bytes.len() as int)
            =~= second.bytes + rest);
    }
}

/// Whether the `k`-th of the items reads back as written in its place in
/// the run: under the state that the items before it leave, with the bytes
/// of the items after it and `rest` behind it.
pub open spec fn item_reads_back<T: Encode + Decode>(
    items: Seq<T>,
    state: State,
    rest: Seq<u8>,
    k: int,
) -> bool {
    reads_back(
        items[k],
        items_image(items.take(k), state)->Ok_0.state,
        items_image(items, state)->Ok_0.bytes.skip(
            items_image(items.take(k + 1), state)->Ok_0.bytes.len() as int,
        ) + rest,
    )
}

/// Whether each of the items reads back as written in its place in the
/// run.
pub open spec fn items_read_back<T: Encode + Decode>(
    items: Seq<T>,
    state: State,
    rest: Seq<u8>,
) -> bool {
    forall|k: int| 0 <= k < items.len() ==> #[trigger] item_reads_back(items, state, rest, k)
}

/// The bytes of the first `i` items are the first bytes of all the items.
pub proof fn lemma_items_bytes_lead<T: Encode>(items: Seq<T>, state: State, i: int)
    requires
        0 <= i <= items.len(),
        items_image(items, state) is Ok,
    ensures
        items_image(items.take(i), state) is Ok,
        items_image(items.take(i), state)->Ok_0.bytes.len() <= items_image(
            items,
            state,
        )->Ok_0.bytes.len(),
        items_image(items, state)->Ok_0.bytes.take(
            items_image(items.take(i), state)->Ok_0.bytes.len() as int,
        ) == items_image(items.take(i), state)->Ok_0.bytes,
    decreases items.len(),
{
    let all = items_image(items, state)->Ok_0.bytes;
    if i == items.len() {
        assert(items.take(i) =~= items);
        assert(all.take(all.len() as int) =~= all);
    } else {
        lemma_items_bytes_lead(items.drop_last(), state, i);
        assert(items.drop_last().take(i) =~= items.take(i));
        let shorter = items_image(items.drop_last(), state)->Ok_0.bytes;
        let part = items_image(items.take(i), state)->Ok_0.bytes;
        assert(all.take(part.len() as int) =~= shorter.take(part.len() as int));
    }
}

/// Where each of the items reads back in its place, the first `k` of them
/// are read from the bytes of all of them as what they are.
pub proof fn lemma_run_reads_back<T: Encode + Decode>(
    items: Seq<T>,
    state: State,
    rest: Seq<u8>,
    k: int,
)
    requires
        0 <= k <= items.len(),
        items_image(items, state) is Ok,
        items_read_back(items, state, rest),
    ensures
        items_image(items.take(k), state) is Ok,
        items_parse::<T>(state, items_image(items, state)->Ok_0.bytes + rest, k as nat) == Ok::<
            Run<<T as Decode>::Model>,
            EncodingError,
        >(
            Run {
                values: models(items.take(k)),
                len: items_image(items.take(k), state)->Ok_0.bytes.len(),
                state: items_image(items.take(k), state)->Ok_0.state,
            },
        ),
    decreases k,
{
    let all = items_image(items, state)->Ok_0.bytes;
    lemma_items_bytes_lead(items, state, k);
    if k == 0 {
        assert(items.take(0) =~= Seq::<T>::empty());
        assert(models(items.take(0)) =~= Seq::<<T as Decode>::Model>::empty());
    } else {
        lemma_run_reads_back(items, state, rest, k - 1);
        lemma_items_bytes_lead(items, state, k - 1);
        let before = items_image(items.take(k - 1), state)->Ok_0;
        let through = items_image(items.take(k), state)->Ok_0;
        assert(items.take(k).drop_last() =~= items.take(k - 1));
        assert(items.take(k).last() == items[k - 1]);
        let item = items[k - 1].image(before.state)->Ok_0;
        assert(through.bytes == before.bytes + item.bytes);
        assert(item_reads_back(items, state, rest, k - 1));
        let later = all.skip(through.bytes.len() as int);
        assert(all =~= through.bytes + later);
        assert((all + rest).skip(before.bytes.len() as int) =~= item.bytes + (later + rest));
        assert(models(items.take(k)) =~= models(items.take(k - 1)).push(items[k - 1].model()));
    }
}

/// **A vector reads back as written** where each of its items does in its
/// place in the run.
pub proof fn law_vec_reads_back<T: Encode + Decode>(x: Vec<T>, state: State, rest: Seq<u8>)
    requires
        items_read_back(x@, state.without_size(), rest),
    ensures
        reads_back(x, state, rest),
{
    if let Ok(image) = x.image(state) {
        let n = x@.len() as usize;
        let prefix = size_image(state, n)->Ok_0;
        let body = items_image(x@, state.without_size())->Ok_0;
        law_size_roundtrip(state, n, body.bytes + rest);
        lemma_run_reads_back(x@, state.without_size(), rest, x@.len() as int);
        assert(x@.take(x@.len() as int) =~= x@);
        assert(prefix + body.bytes + rest =~= prefix + (body.bytes + rest));
        assert((prefix + (body.bytes + rest)).skip(prefix.len() as int) =~= body.bytes + rest);
    }
}

/// **An array reads back as written** where each of its items does in its
/// place in the run.
pub proof fn law_array_reads_back<T: Encode + Decode, const N: usize>(
    x: [T; N],
    state: State,
    rest: Seq<u8>,
)
    requires
        items_read_back(x@, state, rest),
    ensures
        reads_back(x, state, rest),
{
    if x.image(state) is Ok {
        lemma_run_reads_back(x@, state, rest, x@.len() as int);
        assert(x@.take(x@.len() as int) =~= x@);
    }
}

/// **What was encoded is decoded.** Where a value that reads back as
/// written was encoded to an empty writer, and a reliable reader holds what
/// the writer then held, a decode under the same state gives the value and
/// leaves nothing in the reader.
pub proof fn law_round_trip<T: Encode + Decode, W: Write, R: Read>(
    x: T,
    state: State,
    writer: W,
    written: W,
    reader: R,
    left: R,
    got: Result<T, EncodingError>,
)
    requires
        reads_back(x, state, Seq::<u8>::empty()),
        writer.written() == Seq::<u8>::empty(),
        delivered(writer, written, Ok(()), x.image(state)),
        reader.remaining() == written.written(),
        reader.reliable(),
        reads(reader, left, got, |v: T| v.model(), T::parse(state, reader.remaining())),
    ensures
        got matches Ok(v) && v.model() == x.model(),
        left.remaining().len() == 0,
{
    let image = x.image(state)->Ok_0;
    assert(image.bytes + Seq::<u8>::empty() =~= image.bytes);
    assert(Seq::<u8>::empty() + image.bytes =~= image.bytes);
}

} // verus!
