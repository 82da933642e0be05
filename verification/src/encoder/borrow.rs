//! Referencing numbers in place: a slice of fixed-width numbers in the byte
//! order of the machine can be handed out as it lies in the data of the
//! stream, with no copy made.

use vstd::prelude::*;
use crate::encoder::Encoder;
use crate::error::BorrowError;
use crate::error::EncodingError;
use crate::io::BorrowRead;
use crate::settings::BitWidth;
use crate::settings::Endianness;
use crate::settings::NumEncoding;
use crate::wire::fixed::fixed_value;
use crate::wire::fixed::from_twos;

verus! {

/// The error of `bytemuck` casts.
#[verifier::external_type_specification]
#[verifier::external_body]
pub struct ExPodCastError(bytemuck::PodCastError);

/// The unsigned number that the `i`-th group of `k` bytes of `bytes` stands
/// for in the given byte order.
pub open spec fn unsigned_at(bytes: Seq<u8>, k: nat, i: int, endianness: Endianness) -> nat {
    fixed_value(bytes.subrange(k * i, k * i + k), endianness)
}

/// The signed number that the `i`-th group of `k` bytes of `bytes` stands
/// for in the given byte order.
pub open spec fn signed_at(bytes: Seq<u8>, k: nat, i: int, endianness: Endianness) -> int {
    from_twos(unsigned_at(bytes, k, i, endianness), 8 * k)
}

/// Whether numbers in the given encoding and byte order can be referenced in
/// place on a machine of byte order `native`: the encoding must be fixed, and
/// the byte order that of the machine.
pub open spec fn borrow_verdict(
    num_encoding: NumEncoding,
    endianness: Endianness,
    native: Endianness,
) -> Result<(), BorrowError> {
    if num_encoding != NumEncoding::Fixed {
        Err(BorrowError::NonBorrowableNumEncoding { num_encoding })
    } else if endianness != native {
        Err(BorrowError::EndiannessMismatch { found: endianness, system: native })
    } else {
        Ok(())
    }
}

/// Whether sizes in the given encoding, byte order and width can be
/// referenced in place on a machine of byte order `native` whose sizes are
/// `native_width` wide: as for numbers, and the width must be that of the
/// machine.
pub open spec fn borrow_size_verdict(
    num_encoding: NumEncoding,
    endianness: Endianness,
    bit_width: BitWidth,
    native: Endianness,
    native_width: BitWidth,
) -> Result<(), BorrowError> {
    match borrow_verdict(num_encoding, endianness, native) {
        Err(e) => Err(e),
        Ok(()) => if bit_width != native_width {
            Err(BorrowError::BitWidthMismatch { found: bit_width, system: native_width })
        } else {
            Ok(())
        },
    }
}

/// Decides whether numbers in the given encoding and byte order can be
/// referenced in place on a machine of byte order `native`.
pub fn check_borrowable(num_encoding: NumEncoding, endianness: Endianness, native: Endianness) -> (r:
    Result<(), BorrowError>)
    ensures
        r == borrow_verdict(num_encoding, endianness, native),
{
    if !num_encoding.borrowable() {
        Err(BorrowError::NonBorrowableNumEncoding { num_encoding })
    } else if endianness != native {
        Err(BorrowError::EndiannessMismatch { found: endianness, system: native })
    } else {
        Ok(())
    }
}

/// Decides whether sizes in the given encoding, byte order and width can be
/// referenced in place on a machine of byte order `native` whose sizes are
/// `native_width` wide.
pub fn check_size_borrowable(
    num_encoding: NumEncoding,
    endianness: Endianness,
    bit_width: BitWidth,
    native: Endianness,
    native_width: BitWidth,
) -> (r: Result<(), BorrowError>)
    ensures
        r == borrow_size_verdict(num_encoding, endianness, bit_width, native, native_width),
{
    match check_borrowable(num_encoding, endianness, native) {
        Err(e) => Err(e),
        Ok(()) => if bit_width != native_width {
            Err(BorrowError::BitWidthMismatch { found: bit_width, system: native_width })
        } else {
            Ok(())
        },
    }
}

/// Whether the `i`-th of the sizes of `k` bytes in `bytes` is `size`.
pub open spec fn size_at_is(bytes: Seq<u8>, k: nat, i: int, endianness: Endianness, size: nat) -> bool {
    unsigned_at(bytes, k, i, endianness) == size
}

/// Whether one of the first `len` sizes of `k` bytes in `bytes` is `size`.
pub open spec fn holds_size(bytes: Seq<u8>, k: nat, len: nat, endianness: Endianness, size: nat) -> bool {
    exists|i: int| 0 <= i < len && #[trigger] size_at_is(bytes, k, i, endianness, size)
}

/// Whether each of the first `len` sizes of `k` bytes in `bytes` is at most
/// `max`.
pub open spec fn sizes_within(bytes: Seq<u8>, k: nat, len: nat, endianness: Endianness, max: nat) -> bool {
    forall|i: int| 0 <= i < len ==> #[trigger] unsigned_at(bytes, k, i, endianness) <= max
}

/// The first of the sizes that is above `max`, if any is.
fn first_above(items: &[usize], max: usize) -> (r: Option<usize>)
    ensures
        r matches Some(item) ==> item > max && exists|i: int|
            0 <= i < items@.len() && items@[i] == item,
        r is None ==> forall|i: int| 0 <= i < items@.len() ==> #[trigger] items@[i] <= max,
{
    let mut j: usize = 0;
    while j < items.len()
        invariant
            j <= items@.len(),
            forall|i: int| 0 <= i < j ==> #[trigger] items@[i] <= max,
        decreases items@.len() - j,
    {
        let item = items[j];
        if item > max {
            return Some(item);
        }
        j += 1;
    }
    None
}

/// How many bytes `length` items of `k` bytes take, if that is a `usize`.
fn byte_count(length: usize, k: usize) -> (r: Option<usize>)
    requires
        1 <= k <= 16,
    ensures
        r matches Some(n) ==> n == length * k,
        r is None ==> length * k > usize::MAX,
{
    if length <= usize::MAX / k {
        assert(length * k <= usize::MAX) by (nonlinear_arith)
            requires
                length <= usize::MAX / k,
                k >= 1,
        ;
        Some(length * k)
    } else {
        assert(length * k > usize::MAX) by (nonlinear_arith)
            requires
                length > usize::MAX / k,
                k >= 1,
        ;
        None
    }
}

/// `bytemuck::try_cast_slice` from bytes to `u16`: the same memory seen as
/// `u16` values, each made of its group of bytes in the byte order of the
/// machine. The cast fails where the bytes do not start at an address
/// aligned for `u16`, or are not a whole number of values.
#[verifier::external_body]
fn cast_u16_slice<'data>(bytes: &'data [u8]) -> (r: Result<&'data [u16], bytemuck::PodCastError>)
    ensures
        r matches Ok(items) ==> items@.len() * 2 == bytes@.len() && forall|i: int|
            0 <= i < items@.len() ==> #[trigger] items@[i] as nat == unsigned_at(
                bytes@,
                2,
                i,
                Endianness::spec_native(),
            ),
{
    bytemuck::try_cast_slice(bytes)
}

/// `bytemuck::try_cast_slice` from bytes to `u32`: the same memory seen as
/// `u32` values, each made of its group of bytes in the byte order of the
/// machine. The cast fails where the bytes do not start at an address
/// aligned for `u32`, or are not a whole number of values.
#[verifier::external_body]
fn cast_u32_slice<'data>(bytes: &'data [u8]) -> (r: Result<&'data [u32], bytemuck::PodCastError>)
    ensures
        r matches Ok(items) ==> items@.len() * 4 == bytes@.len() && forall|i: int|
            0 <= i < items@.len() ==> #[trigger] items@[i] as nat == unsigned_at(
                bytes@,
                4,
                i,
                Endianness::spec_native(),
            ),
{
    bytemuck::try_cast_slice(bytes)
}

/// `bytemuck::try_cast_slice` from bytes to `u64`: the same memory seen as
/// `u64` values, each made of its group of bytes in the byte order of the
/// machine. The cast fails where the bytes do not start at an address
/// aligned for `u64`, or are not a whole number of values.
#[verifier::external_body]
fn cast_u64_slice<'data>(bytes: &'data [u8]) -> (r: Result<&'data [u64], bytemuck::PodCastError>)
    ensures
        r matches Ok(items) ==> items@.len() * 8 == bytes@.len() && forall|i: int|
            0 <= i < items@.len() ==> #[trigger] items@[i] as nat == unsigned_at(
                bytes@,
                8,
                i,
                Endianness::spec_native(),
            ),
{
    bytemuck::try_cast_slice(bytes)
}

/// `bytemuck::try_cast_slice` from bytes to `u128`: the same memory seen as
/// `u128` values, each made of its group of bytes in the byte order of the
/// machine. The cast fails where the bytes do not start at an address
/// aligned for `u128`, or are not a whole number of values.
#[verifier::external_body]
fn cast_u128_slice<'data>(bytes: &'data [u8]) -> (r: Result<&'data [u128], bytemuck::PodCastError>)
    ensures
        r matches Ok(items) ==> items@.len() * 16 == bytes@.len() && forall|i: int|
            0 <= i < items@.len() ==> #[trigger] items@[i] as nat == unsigned_at(
                bytes@,
                16,
                i,
                Endianness::spec_native(),
            ),
{
    bytemuck::try_cast_slice(bytes)
}

/// `bytemuck::try_cast_slice` from bytes to `i8`: the same memory seen as
/// `i8` values, each made of its one byte. The cast cannot fail: an `i8` has
/// the size and the alignment of a byte.
#[verifier::external_body]
fn cast_i8_slice<'data>(bytes: &'data [u8]) -> (r: Result<&'data [i8], bytemuck::PodCastError>)
    ensures
        r is Ok,
        r matches Ok(items) ==> items@.len() * 1 == bytes@.len() && forall|i: int|
            0 <= i < items@.len() ==> #[trigger] items@[i] as int == signed_at(
                bytes@,
                1,
                i,
                Endianness::spec_native(),
            ),
{
    bytemuck::try_cast_slice(bytes)
}

/// `bytemuck::try_cast_slice` from bytes to `i16`: the same memory seen as
/// `i16` values, each made of its group of bytes in the byte order of the
/// machine. The cast fails where the bytes do not start at an address
/// aligned for `i16`, or are not a whole number of values.
#[verifier::external_body]
fn cast_i16_slice<'data>(bytes: &'data [u8]) -> (r: Result<&'data [i16], bytemuck::PodCastError>)
    ensures
        r matches Ok(items) ==> items@.len() * 2 == bytes@.len() && forall|i: int|
            0 <= i < items@.len() ==> #[trigger] items@[i] as int == signed_at(
                bytes@,
                2,
                i,
                Endianness::spec_native(),
            ),
{
    bytemuck::try_cast_slice(bytes)
}

/// `bytemuck::try_cast_slice` from bytes to `i32`: the same memory seen as
/// `i32` values, each made of its group of bytes in the byte order of the
/// machine. The cast fails where the bytes do not start at an address
/// aligned for `i32`, or are not a whole number of values.
#[verifier::external_body]
fn cast_i32_slice<'data>(bytes: &'data [u8]) -> (r: Result<&'data [i32], bytemuck::PodCastError>)
    ensures
        r matches Ok(items) ==> items@.len() * 4 == bytes@.len() && forall|i: int|
            0 <= i < items@.len() ==> #[trigger] items@[i] as int == signed_at(
                bytes@,
                4,
                i,
                Endianness::spec_native(),
            ),
{
    bytemuck::try_cast_slice(bytes)
}

/// `bytemuck::try_cast_slice` from bytes to `i64`: the same memory seen as
/// `i64` values, each made of its group of bytes in the byte order of the
/// machine. The cast fails where the bytes do not start at an address
/// aligned for `i64`, or are not a whole number of values.
#[verifier::external_body]
fn cast_i64_slice<'data>(bytes: &'data [u8]) -> (r: Result<&'data [i64], bytemuck::PodCastError>)
    ensures
        r matches Ok(items) ==> items@.len() * 8 == bytes@.len() && forall|i: int|
            0 <= i < items@.len() ==> #[trigger] items@[i] as int == signed_at(
                bytes@,
                8,
                i,
                Endianness::spec_native(),
            ),
{
    bytemuck::try_cast_slice(bytes)
}

/// `bytemuck::try_cast_slice` from bytes to `i128`: the same memory seen as
/// `i128` values, each made of its group of bytes in the byte order of the
/// machine. The cast fails where the bytes do not start at an address
/// aligned for `i128`, or are not a whole number of values.
#[verifier::external_body]
fn cast_i128_slice<'data>(bytes: &'data [u8]) -> (r: Result<&'data [i128], bytemuck::PodCastError>)
    ensures
        r matches Ok(items) ==> items@.len() * 16 == bytes@.len() && forall|i: int|
            0 <= i < items@.len() ==> #[trigger] items@[i] as int == signed_at(
                bytes@,
                16,
                i,
                Endianness::spec_native(),
            ),
{
    bytemuck::try_cast_slice(bytes)
}

/// `bytemuck::try_cast_slice` from bytes to `usize`: the same memory seen as
/// `usize` values, each made of its group of bytes in the byte order of the
/// machine. The cast fails where the bytes do not start at an address
/// aligned for `usize`, or are not a whole number of values.
#[verifier::external_body]
fn cast_usize_slice<'data>(bytes: &'data [u8]) -> (r: Result<&'data [usize], bytemuck::PodCastError>)
    ensures
        r matches Ok(items) ==> items@.len() * BitWidth::spec_native().spec_bytes() == bytes@.len() && forall|i: int|
            0 <= i < items@.len() ==> #[trigger] items@[i] as nat == unsigned_at(
                bytes@,
                BitWidth::spec_native().spec_bytes(),
                i,
                Endianness::spec_native(),
            ),
{
    bytemuck::try_cast_slice(bytes)
}

/// `bytemuck::try_cast_slice` from bytes to `isize`: the same memory seen as
/// `isize` values, each made of its group of bytes in the byte order of the
/// machine. The cast fails where the bytes do not start at an address
/// aligned for `isize`, or are not a whole number of values.
#[verifier::external_body]
fn cast_isize_slice<'data>(bytes: &'data [u8]) -> (r: Result<&'data [isize], bytemuck::PodCastError>)
    ensures
        r matches Ok(items) ==> items@.len() * BitWidth::spec_native().spec_bytes() == bytes@.len() && forall|i: int|
            0 <= i < items@.len() ==> #[trigger] items@[i] as int == signed_at(
                bytes@,
                BitWidth::spec_native().spec_bytes(),
                i,
                Endianness::spec_native(),
            ),
{
    bytemuck::try_cast_slice(bytes)
}

impl<'a, 'data, T: BorrowRead<'data>, U> Encoder<'a, T, U> {
    /// The next `len` bytes of the stream, which stays where it is. Asking
    /// again gives the same bytes.
    pub fn peek_bytes(&self, len: usize) -> (r: Result<&'data [u8], EncodingError>)
        ensures
            r matches Ok(bytes) ==> len <= self.stream.remaining().len() && bytes@
                == self.stream.remaining().take(len as int),
            self.stream.reliable() && len <= self.stream.remaining().len() ==> r is Ok,
            self.stream.reliable() && r is Err ==> r == Err::<&'data [u8], EncodingError>(
                EncodingError::UnexpectedEnd,
            ),
    {
        self.stream.peek(len)
    }

    /// The next `len` bytes of the stream, in place, with no check made.
    pub fn borrow_byte_slice(&mut self, len: usize) -> (r: Result<&'data [u8], EncodingError>)
        ensures
            final(self).ctxt == old(self).ctxt,
            final(self).stream.reliable() == old(self).stream.reliable(),
            r matches Ok(bytes) ==> len <= old(self).stream.remaining().len() && bytes@ == old(self).stream.remaining().take(len as int) && final(self).stream.remaining() == old(self).stream.remaining().skip(len as int),
            old(self).stream.reliable() && len <= old(self).stream.remaining().len() ==> r is Ok,
            old(self).stream.reliable() && r is Err ==> r == Err::<&'data [u8], EncodingError>(
                EncodingError::UnexpectedEnd,
            ) && final(self).stream.remaining() == old(self).stream.remaining(),
    {
        self.stream.borrow_read(len)
    }

    /// The next `len` bytes of the stream as `u8` values, in place. Any
    /// encoding but the fixed one fails with `NonBorrowableNumEncoding` and
    /// takes nothing.
    pub fn borrow_u8_slice(&mut self, len: usize, num_encoding: NumEncoding) -> (r: Result<
        &'data [u8],
        EncodingError,
    >)
        ensures
            final(self).ctxt == old(self).ctxt,
            final(self).stream.reliable() == old(self).stream.reliable(),
            num_encoding != NumEncoding::Fixed ==> r == Err::<&'data [u8], EncodingError>(
                EncodingError::BorrowError(BorrowError::NonBorrowableNumEncoding { num_encoding }),
            ) && final(self).stream == old(self).stream,
            r matches Ok(bytes) ==> len <= old(self).stream.remaining().len() && bytes@ == old(self).stream.remaining().take(len as int) && final(self).stream.remaining() == old(self).stream.remaining().skip(len as int),
            num_encoding == NumEncoding::Fixed && old(self).stream.reliable() && len <= old(self).stream.remaining().len() ==> r is Ok,
            num_encoding == NumEncoding::Fixed && old(self).stream.reliable() && r is Err ==> r
                == Err::<&'data [u8], EncodingError>(EncodingError::UnexpectedEnd) && final(self).stream.remaining() == old(self).stream.remaining(),
    {
        if !num_encoding.borrowable() {
            return Err(
                EncodingError::BorrowError(BorrowError::NonBorrowableNumEncoding { num_encoding }),
            );
        }
        self.stream.borrow_read(len)
    }

    /// The next `length` values of type `u16`, in place.
    ///
    /// Any encoding but the fixed one fails with `NonBorrowableNumEncoding`,
    /// and a byte order that is not the machine's with `EndiannessMismatch`,
    /// whatever the stream holds; either way nothing is taken. Data that
    /// does not lie at an address aligned for `u16` fails with
    /// `AlignmentMismatch`, and nothing is taken either. On success the
    /// values are those that reading `length` fixed `u16` values in the
    /// given byte order would give. A length whose bytes a `usize` cannot
    /// count is an `UnexpectedEnd`.
    pub fn borrow_u16_slice(
        &mut self,
        length: usize,
        num_encoding: NumEncoding,
        endianness: Endianness,
    ) -> (r: Result<&'data [u16], EncodingError>)
        ensures
            final(self).ctxt == old(self).ctxt,
            final(self).stream.reliable() == old(self).stream.reliable(),
            borrow_verdict(num_encoding, endianness, Endianness::spec_native()) matches Err(e) ==> r == Err::<&'data [u16], EncodingError>(
                EncodingError::BorrowError(e),
            ) && final(self).stream == old(self).stream,
            r matches Ok(items) ==> items@.len() == length && 2 * length <= old(self).stream.remaining().len() && final(self).stream.remaining() == old(self).stream.remaining().skip(2 * length) && forall|i: int|
                0 <= i < length ==> #[trigger] items@[i] as nat == unsigned_at(
                    old(self).stream.remaining(),
                    2,
                    i,
                    endianness,
                ),
            old(self).stream.reliable() && r is Err ==> final(self).stream.remaining() == old(self).stream.remaining(),
            borrow_verdict(num_encoding, endianness, Endianness::spec_native()) is Ok && old(self).stream.reliable() ==> if 2 * length <= old(self).stream.remaining().len() && 2 * length <= usize::MAX {
                r is Ok || r == Err::<&'data [u16], EncodingError>(
                    EncodingError::BorrowError(BorrowError::AlignmentMismatch),
                )
            } else {
                r == Err::<&'data [u16], EncodingError>(EncodingError::UnexpectedEnd)
            },
    {
        match check_borrowable(num_encoding, endianness, Endianness::native()) {
            Ok(()) => {},
            Err(e) => {
                return Err(EncodingError::BorrowError(e));
            },
        }
        let count = match byte_count(length, 2) {
            Some(count) => count,
            None => {
                return Err(EncodingError::UnexpectedEnd);
            },
        };
        let bytes = match self.stream.peek(count) {
            Ok(bytes) => bytes,
            Err(e) => {
                return Err(e);
            },
        };
        let items = match cast_u16_slice(bytes) {
            Ok(items) => items,
            Err(_) => {
                return Err(EncodingError::BorrowError(BorrowError::AlignmentMismatch));
            },
        };
        let ghost before = self.stream.remaining();
        match self.stream.borrow_read(count) {
            Ok(_) => {
                proof {
                    assert forall|i: int| 0 <= i < length implies #[trigger] items@[i] as nat
                        == unsigned_at(before, 2, i, endianness) by {
                        assert(2 * i + 2 <= count) by (nonlinear_arith)
                            requires
                                0 <= i < length,
                                count == length * 2,
                        ;
                        assert(bytes@.subrange(2 * i, 2 * i + 2) =~= before.subrange(
                            2 * i,
                            2 * i + 2,
                        ));
                    }
                }
                Ok(items)
            },
            Err(e) => Err(e),
        }
    }

    /// The next `length` values of type `u32`, in place.
    ///
    /// Any encoding but the fixed one fails with `NonBorrowableNumEncoding`,
    /// and a byte order that is not the machine's with `EndiannessMismatch`,
    /// whatever the stream holds; either way nothing is taken. Data that
    /// does not lie at an address aligned for `u32` fails with
    /// `AlignmentMismatch`, and nothing is taken either. On success the
    /// values are those that reading `length` fixed `u32` values in the
    /// given byte order would give. A length whose bytes a `usize` cannot
    /// count is an `UnexpectedEnd`.
    pub fn borrow_u32_slice(
        &mut self,
        length: usize,
        num_encoding: NumEncoding,
        endianness: Endianness,
    ) -> (r: Result<&'data [u32], EncodingError>)
        ensures
            final(self).ctxt == old(self).ctxt,
            final(self).stream.reliable() == old(self).stream.reliable(),
            borrow_verdict(num_encoding, endianness, Endianness::spec_native()) matches Err(e) ==> r == Err::<&'data [u32], EncodingError>(
                EncodingError::BorrowError(e),
            ) && final(self).stream == old(self).stream,
            r matches Ok(items) ==> items@.len() == length && 4 * length <= old(self).stream.remaining().len() && final(self).stream.remaining() == old(self).stream.remaining().skip(4 * length) && forall|i: int|
                0 <= i < length ==> #[trigger] items@[i] as nat == unsigned_at(
                    old(self).stream.remaining(),
                    4,
                    i,
                    endianness,
                ),
            old(self).stream.reliable() && r is Err ==> final(self).stream.remaining() == old(self).stream.remaining(),
            borrow_verdict(num_encoding, endianness, Endianness::spec_native()) is Ok && old(self).stream.reliable() ==> if 4 * length <= old(self).stream.remaining().len() && 4 * length <= usize::MAX {
                r is Ok || r == Err::<&'data [u32], EncodingError>(
                    EncodingError::BorrowError(BorrowError::AlignmentMismatch),
                )
            } else {
                r == Err::<&'data [u32], EncodingError>(EncodingError::UnexpectedEnd)
            },
    {
        match check_borrowable(num_encoding, endianness, Endianness::native()) {
            Ok(()) => {},
            Err(e) => {
                return Err(EncodingError::BorrowError(e));
            },
        }
        let count = match byte_count(length, 4) {
            Some(count) => count,
            None => {
                return Err(EncodingError::UnexpectedEnd);
            },
        };
        let bytes = match self.stream.peek(count) {
            Ok(bytes) => bytes,
            Err(e) => {
                return Err(e);
            },
        };
        let items = match cast_u32_slice(bytes) {
            Ok(items) => items,
            Err(_) => {
                return Err(EncodingError::BorrowError(BorrowError::AlignmentMismatch));
            },
        };
        let ghost before = self.stream.remaining();
        match self.stream.borrow_read(count) {
            Ok(_) => {
                proof {
                    assert forall|i: int| 0 <= i < length implies #[trigger] items@[i] as nat
                        == unsigned_at(before, 4, i, endianness) by {
                        assert(4 * i + 4 <= count) by (nonlinear_arith)
                            requires
                                0 <= i < length,
                                count == length * 4,
                        ;
                        assert(bytes@.subrange(4 * i, 4 * i + 4) =~= before.subrange(
                            4 * i,
                            4 * i + 4,
                        ));
                    }
                }
                Ok(items)
            },
            Err(e) => Err(e),
        }
    }

    /// The next `length` values of type `u64`, in place.
    ///
    /// Any encoding but the fixed one fails with `NonBorrowableNumEncoding`,
    /// and a byte order that is not the machine's with `EndiannessMismatch`,
    /// whatever the stream holds; either way nothing is taken. Data that
    /// does not lie at an address aligned for `u64` fails with
    /// `AlignmentMismatch`, and nothing is taken either. On success the
    /// values are those that reading `length` fixed `u64` values in the
    /// given byte order would give. A length whose bytes a `usize` cannot
    /// count is an `UnexpectedEnd`.
    pub fn borrow_u64_slice(
        &mut self,
        length: usize,
        num_encoding: NumEncoding,
        endianness: Endianness,
    ) -> (r: Result<&'data [u64], EncodingError>)
        ensures
            final(self).ctxt == old(self).ctxt,
            final(self).stream.reliable() == old(self).stream.reliable(),
            borrow_verdict(num_encoding, endianness, Endianness::spec_native()) matches Err(e) ==> r == Err::<&'data [u64], EncodingError>(
                EncodingError::BorrowError(e),
            ) && final(self).stream == old(self).stream,
            r matches Ok(items) ==> items@.len() == length && 8 * length <= old(self).stream.remaining().len() && final(self).stream.remaining() == old(self).stream.remaining().skip(8 * length) && forall|i: int|
                0 <= i < length ==> #[trigger] items@[i] as nat == unsigned_at(
                    old(self).stream.remaining(),
                    8,
                    i,
                    endianness,
                ),
            old(self).stream.reliable() && r is Err ==> final(self).stream.remaining() == old(self).stream.remaining(),
            borrow_verdict(num_encoding, endianness, Endianness::spec_native()) is Ok && old(self).stream.reliable() ==> if 8 * length <= old(self).stream.remaining().len() && 8 * length <= usize::MAX {
                r is Ok || r == Err::<&'data [u64], EncodingError>(
                    EncodingError::BorrowError(BorrowError::AlignmentMismatch),
                )
            } else {
                r == Err::<&'data [u64], EncodingError>(EncodingError::UnexpectedEnd)
            },
    {
        match check_borrowable(num_encoding, endianness, Endianness::native()) {
            Ok(()) => {},
            Err(e) => {
                return Err(EncodingError::BorrowError(e));
            },
        }
        let count = match byte_count(length, 8) {
            Some(count) => count,
            None => {
                return Err(EncodingError::UnexpectedEnd);
            },
        };
        let bytes = match self.stream.peek(count) {
            Ok(bytes) => bytes,
            Err(e) => {
                return Err(e);
            },
        };
        let items = match cast_u64_slice(bytes) {
            Ok(items) => items,
            Err(_) => {
                return Err(EncodingError::BorrowError(BorrowError::AlignmentMismatch));
            },
        };
        let ghost before = self.stream.remaining();
        match self.stream.borrow_read(count) {
            Ok(_) => {
                proof {
                    assert forall|i: int| 0 <= i < length implies #[trigger] items@[i] as nat
                        == unsigned_at(before, 8, i, endianness) by {
                        assert(8 * i + 8 <= count) by (nonlinear_arith)
                            requires
                                0 <= i < length,
                                count == length * 8,
                        ;
                        assert(bytes@.subrange(8 * i, 8 * i + 8) =~= before.subrange(
                            8 * i,
                            8 * i + 8,
                        ));
                    }
                }
                Ok(items)
            },
            Err(e) => Err(e),
        }
    }

    /// The next `length` values of type `u128`, in place.
    ///
    /// Any encoding but the fixed one fails with `NonBorrowableNumEncoding`,
    /// and a byte order that is not the machine's with `EndiannessMismatch`,
    /// whatever the stream holds; either way nothing is taken. Data that
    /// does not lie at an address aligned for `u128` fails with
    /// `AlignmentMismatch`, and nothing is taken either. On success the
    /// values are those that reading `length` fixed `u128` values in the
    /// given byte order would give. A length whose bytes a `usize` cannot
    /// count is an `UnexpectedEnd`.
    pub fn borrow_u128_slice(
        &mut self,
        length: usize,
        num_encoding: NumEncoding,
        endianness: Endianness,
    ) -> (r: Result<&'data [u128], EncodingError>)
        ensures
            final(self).ctxt == old(self).ctxt,
            final(self).stream.reliable() == old(self).stream.reliable(),
            borrow_verdict(num_encoding, endianness, Endianness::spec_native()) matches Err(e) ==> r == Err::<&'data [u128], EncodingError>(
                EncodingError::BorrowError(e),
            ) && final(self).stream == old(self).stream,
            r matches Ok(items) ==> items@.len() == length && 16 * length <= old(self).stream.remaining().len() && final(self).stream.remaining() == old(self).stream.remaining().skip(16 * length) && forall|i: int|
                0 <= i < length ==> #[trigger] items@[i] as nat == unsigned_at(
                    old(self).stream.remaining(),
                    16,
                    i,
                    endianness,
                ),
            old(self).stream.reliable() && r is Err ==> final(self).stream.remaining() == old(self).stream.remaining(),
            borrow_verdict(num_encoding, endianness, Endianness::spec_native()) is Ok && old(self).stream.reliable() ==> if 16 * length <= old(self).stream.remaining().len() && 16 * length <= usize::MAX {
                r is Ok || r == Err::<&'data [u128], EncodingError>(
                    EncodingError::BorrowError(BorrowError::AlignmentMismatch),
                )
            } else {
                r == Err::<&'data [u128], EncodingError>(EncodingError::UnexpectedEnd)
            },
    {
        match check_borrowable(num_encoding, endianness, Endianness::native()) {
            Ok(()) => {},
            Err(e) => {
                return Err(EncodingError::BorrowError(e));
            },
        }
        let count = match byte_count(length, 16) {
            Some(count) => count,
            None => {
                return Err(EncodingError::UnexpectedEnd);
            },
        };
        let bytes = match self.stream.peek(count) {
            Ok(bytes) => bytes,
            Err(e) => {
                return Err(e);
            },
        };
        let items = match cast_u128_slice(bytes) {
            Ok(items) => items,
            Err(_) => {
                return Err(EncodingError::BorrowError(BorrowError::AlignmentMismatch));
            },
        };
        let ghost before = self.stream.remaining();
        match self.stream.borrow_read(count) {
            Ok(_) => {
                proof {
                    assert forall|i: int| 0 <= i < length implies #[trigger] items@[i] as nat
                        == unsigned_at(before, 16, i, endianness) by {
                        assert(16 * i + 16 <= count) by (nonlinear_arith)
                            requires
                                0 <= i < length,
                                count == length * 16,
                        ;
                        assert(bytes@.subrange(16 * i, 16 * i + 16) =~= before.subrange(
                            16 * i,
                            16 * i + 16,
                        ));
                    }
                }
                Ok(items)
            },
            Err(e) => Err(e),
        }
    }

    /// The next `length` values of type `i8`, in place. Any encoding but
    /// the fixed one fails with `NonBorrowableNumEncoding` and takes nothing.
    /// A byte lies aligned for `i8` wherever it lies, so on a reliable
    /// stream the fixed encoding succeeds exactly where `length` bytes are
    /// left.
    pub fn borrow_i8_slice(
        &mut self,
        length: usize,
        num_encoding: NumEncoding,
    ) -> (r: Result<&'data [i8], EncodingError>)
        ensures
            final(self).ctxt == old(self).ctxt,
            final(self).stream.reliable() == old(self).stream.reliable(),
            borrow_verdict(num_encoding, Endianness::spec_native(), Endianness::spec_native()) matches Err(e) ==> r == Err::<&'data [i8], EncodingError>(
                EncodingError::BorrowError(e),
            ) && final(self).stream == old(self).stream,
            r matches Ok(items) ==> items@.len() == length && 1 * length <= old(self).stream.remaining().len() && final(self).stream.remaining() == old(self).stream.remaining().skip(1 * length) && forall|i: int|
                0 <= i < length ==> #[trigger] items@[i] as int == signed_at(
                    old(self).stream.remaining(),
                    1,
                    i,
                    Endianness::spec_native(),
                ),
            old(self).stream.reliable() && r is Err ==> final(self).stream.remaining() == old(self).stream.remaining(),
            borrow_verdict(num_encoding, Endianness::spec_native(), Endianness::spec_native()) is Ok && old(self).stream.reliable() ==> if 1 * length <= old(self).stream.remaining().len() && 1 * length <= usize::MAX {
                r is Ok
            } else {
                r == Err::<&'data [i8], EncodingError>(EncodingError::UnexpectedEnd)
            },
    {
        match check_borrowable(num_encoding, Endianness::native(), Endianness::native()) {
            Ok(()) => {},
            Err(e) => {
                return Err(EncodingError::BorrowError(e));
            },
        }
        let count = match byte_count(length, 1) {
            Some(count) => count,
            None => {
                return Err(EncodingError::UnexpectedEnd);
            },
        };
        let bytes = match self.stream.peek(count) {
            Ok(bytes) => bytes,
            Err(e) => {
                return Err(e);
            },
        };
        let items = match cast_i8_slice(bytes) {
            Ok(items) => items,
            Err(_) => {
                return Err(EncodingError::BorrowError(BorrowError::AlignmentMismatch));
            },
        };
        let ghost before = self.stream.remaining();
        match self.stream.borrow_read(count) {
            Ok(_) => {
                proof {
                    assert forall|i: int| 0 <= i < length implies #[trigger] items@[i] as int
                        == signed_at(before, 1, i, Endianness::spec_native()) by {
                        assert(1 * i + 1 <= count) by (nonlinear_arith)
                            requires
                                0 <= i < length,
                                count == length * 1,
                        ;
                        assert(bytes@.subrange(1 * i, 1 * i + 1) =~= before.subrange(
                            1 * i,
                            1 * i + 1,
                        ));
                    }
                }
                Ok(items)
            },
            Err(e) => Err(e),
        }
    }

    /// The next `length` values of type `i16`, in place.
    ///
    /// Any encoding but the fixed one fails with `NonBorrowableNumEncoding`,
    /// and a byte order that is not the machine's with `EndiannessMismatch`,
    /// whatever the stream holds; either way nothing is taken. Data that
    /// does not lie at an address aligned for `i16` fails with
    /// `AlignmentMismatch`, and nothing is taken either. On success the
    /// values are those that reading `length` fixed `i16` values in the
    /// given byte order would give. A length whose bytes a `usize` cannot
    /// count is an `UnexpectedEnd`.
    pub fn borrow_i16_slice(
        &mut self,
        length: usize,
        num_encoding: NumEncoding,
        endianness: Endianness,
    ) -> (r: Result<&'data [i16], EncodingError>)
        ensures
            final(self).ctxt == old(self).ctxt,
            final(self).stream.reliable() == old(self).stream.reliable(),
            borrow_verdict(num_encoding, endianness, Endianness::spec_native()) matches Err(e) ==> r == Err::<&'data [i16], EncodingError>(
                EncodingError::BorrowError(e),
            ) && final(self).stream == old(self).stream,
            r matches Ok(items) ==> items@.len() == length && 2 * length <= old(self).stream.remaining().len() && final(self).stream.remaining() == old(self).stream.remaining().skip(2 * length) && forall|i: int|
                0 <= i < length ==> #[trigger] items@[i] as int == signed_at(
                    old(self).stream.remaining(),
                    2,
                    i,
                    endianness,
                ),
            old(self).stream.reliable() && r is Err ==> final(self).stream.remaining() == old(self).stream.remaining(),
            borrow_verdict(num_encoding, endianness, Endianness::spec_native()) is Ok && old(self).stream.reliable() ==> if 2 * length <= old(self).stream.remaining().len() && 2 * length <= usize::MAX {
                r is Ok || r == Err::<&'data [i16], EncodingError>(
                    EncodingError::BorrowError(BorrowError::AlignmentMismatch),
                )
            } else {
                r == Err::<&'data [i16], EncodingError>(EncodingError::UnexpectedEnd)
            },
    {
        match check_borrowable(num_encoding, endianness, Endianness::native()) {
            Ok(()) => {},
            Err(e) => {
                return Err(EncodingError::BorrowError(e));
            },
        }
        let count = match byte_count(length, 2) {
            Some(count) => count,
            None => {
                return Err(EncodingError::UnexpectedEnd);
            },
        };
        let bytes = match self.stream.peek(count) {
            Ok(bytes) => bytes,
            Err(e) => {
                return Err(e);
            },
        };
        let items = match cast_i16_slice(bytes) {
            Ok(items) => items,
            Err(_) => {
                return Err(EncodingError::BorrowError(BorrowError::AlignmentMismatch));
            },
        };
        let ghost before = self.stream.remaining();
        match self.stream.borrow_read(count) {
            Ok(_) => {
                proof {
                    assert forall|i: int| 0 <= i < length implies #[trigger] items@[i] as int
                        == signed_at(before, 2, i, endianness) by {
                        assert(2 * i + 2 <= count) by (nonlinear_arith)
                            requires
                                0 <= i < length,
                                count == length * 2,
                        ;
                        assert(bytes@.subrange(2 * i, 2 * i + 2) =~= before.subrange(
                            2 * i,
                            2 * i + 2,
                        ));
                    }
                }
                Ok(items)
            },
            Err(e) => Err(e),
        }
    }

    /// The next `length` values of type `i32`, in place.
    ///
    /// Any encoding but the fixed one fails with `NonBorrowableNumEncoding`,
    /// and a byte order that is not the machine's with `EndiannessMismatch`,
    /// whatever the stream holds; either way nothing is taken. Data that
    /// does not lie at an address aligned for `i32` fails with
    /// `AlignmentMismatch`, and nothing is taken either. On success the
    /// values are those that reading `length` fixed `i32` values in the
    /// given byte order would give. A length whose bytes a `usize` cannot
    /// count is an `UnexpectedEnd`.
    pub fn borrow_i32_slice(
        &mut self,
        length: usize,
        num_encoding: NumEncoding,
        endianness: Endianness,
    ) -> (r: Result<&'data [i32], EncodingError>)
        ensures
            final(self).ctxt == old(self).ctxt,
            final(self).stream.reliable() == old(self).stream.reliable(),
            borrow_verdict(num_encoding, endianness, Endianness::spec_native()) matches Err(e) ==> r == Err::<&'data [i32], EncodingError>(
                EncodingError::BorrowError(e),
            ) && final(self).stream == old(self).stream,
            r matches Ok(items) ==> items@.len() == length && 4 * length <= old(self).stream.remaining().len() && final(self).stream.remaining() == old(self).stream.remaining().skip(4 * length) && forall|i: int|
                0 <= i < length ==> #[trigger] items@[i] as int == signed_at(
                    old(self).stream.remaining(),
                    4,
                    i,
                    endianness,
                ),
            old(self).stream.reliable() && r is Err ==> final(self).stream.remaining() == old(self).stream.remaining(),
            borrow_verdict(num_encoding, endianness, Endianness::spec_native()) is Ok && old(self).stream.reliable() ==> if 4 * length <= old(self).stream.remaining().len() && 4 * length <= usize::MAX {
                r is Ok || r == Err::<&'data [i32], EncodingError>(
                    EncodingError::BorrowError(BorrowError::AlignmentMismatch),
                )
            } else {
                r == Err::<&'data [i32], EncodingError>(EncodingError::UnexpectedEnd)
            },
    {
        match check_borrowable(num_encoding, endianness, Endianness::native()) {
            Ok(()) => {},
            Err(e) => {
                return Err(EncodingError::BorrowError(e));
            },
        }
        let count = match byte_count(length, 4) {
            Some(count) => count,
            None => {
                return Err(EncodingError::UnexpectedEnd);
            },
        };
        let bytes = match self.stream.peek(count) {
            Ok(bytes) => bytes,
            Err(e) => {
                return Err(e);
            },
        };
        let items = match cast_i32_slice(bytes) {
            Ok(items) => items,
            Err(_) => {
                return Err(EncodingError::BorrowError(BorrowError::AlignmentMismatch));
            },
        };
        let ghost before = self.stream.remaining();
        match self.stream.borrow_read(count) {
            Ok(_) => {
                proof {
                    assert forall|i: int| 0 <= i < length implies #[trigger] items@[i] as int
                        == signed_at(before, 4, i, endianness) by {
                        assert(4 * i + 4 <= count) by (nonlinear_arith)
                            requires
                                0 <= i < length,
                                count == length * 4,
                        ;
                        assert(bytes@.subrange(4 * i, 4 * i + 4) =~= before.subrange(
                            4 * i,
                            4 * i + 4,
                        ));
                    }
                }
                Ok(items)
            },
            Err(e) => Err(e),
        }
    }

    /// The next `length` values of type `i64`, in place.
    ///
    /// Any encoding but the fixed one fails with `NonBorrowableNumEncoding`,
    /// and a byte order that is not the machine's with `EndiannessMismatch`,
    /// whatever the stream holds; either way nothing is taken. Data that
    /// does not lie at an address aligned for `i64` fails with
    /// `AlignmentMismatch`, and nothing is taken either. On success the
    /// values are those that reading `length` fixed `i64` values in the
    /// given byte order would give. A length whose bytes a `usize` cannot
    /// count is an `UnexpectedEnd`.
    pub fn borrow_i64_slice(
        &mut self,
        length: usize,
        num_encoding: NumEncoding,
        endianness: Endianness,
    ) -> (r: Result<&'data [i64], EncodingError>)
        ensures
            final(self).ctxt == old(self).ctxt,
            final(self).stream.reliable() == old(self).stream.reliable(),
            borrow_verdict(num_encoding, endianness, Endianness::spec_native()) matches Err(e) ==> r == Err::<&'data [i64], EncodingError>(
                EncodingError::BorrowError(e),
            ) && final(self).stream == old(self).stream,
            r matches Ok(items) ==> items@.len() == length && 8 * length <= old(self).stream.remaining().len() && final(self).stream.remaining() == old(self).stream.remaining().skip(8 * length) && forall|i: int|
                0 <= i < length ==> #[trigger] items@[i] as int == signed_at(
                    old(self).stream.remaining(),
                    8,
                    i,
                    endianness,
                ),
            old(self).stream.reliable() && r is Err ==> final(self).stream.remaining() == old(self).stream.remaining(),
            borrow_verdict(num_encoding, endianness, Endianness::spec_native()) is Ok && old(self).stream.reliable() ==> if 8 * length <= old(self).stream.remaining().len() && 8 * length <= usize::MAX {
                r is Ok || r == Err::<&'data [i64], EncodingError>(
                    EncodingError::BorrowError(BorrowError::AlignmentMismatch),
                )
            } else {
                r == Err::<&'data [i64], EncodingError>(EncodingError::UnexpectedEnd)
            },
    {
        match check_borrowable(num_encoding, endianness, Endianness::native()) {
            Ok(()) => {},
            Err(e) => {
                return Err(EncodingError::BorrowError(e));
            },
        }
        let count = match byte_count(length, 8) {
            Some(count) => count,
            None => {
                return Err(EncodingError::UnexpectedEnd);
            },
        };
        let bytes = match self.stream.peek(count) {
            Ok(bytes) => bytes,
            Err(e) => {
                return Err(e);
            },
        };
        let items = match cast_i64_slice(bytes) {
            Ok(items) => items,
            Err(_) => {
                return Err(EncodingError::BorrowError(BorrowError::AlignmentMismatch));
            },
        };
        let ghost before = self.stream.remaining();
        match self.stream.borrow_read(count) {
            Ok(_) => {
                proof {
                    assert forall|i: int| 0 <= i < length implies #[trigger] items@[i] as int
                        == signed_at(before, 8, i, endianness) by {
                        assert(8 * i + 8 <= count) by (nonlinear_arith)
                            requires
                                0 <= i < length,
                                count == length * 8,
                        ;
                        assert(bytes@.subrange(8 * i, 8 * i + 8) =~= before.subrange(
                            8 * i,
                            8 * i + 8,
                        ));
                    }
                }
                Ok(items)
            },
            Err(e) => Err(e),
        }
    }

    /// The next `length` values of type `i128`, in place.
    ///
    /// Any encoding but the fixed one fails with `NonBorrowableNumEncoding`,
    /// and a byte order that is not the machine's with `EndiannessMismatch`,
    /// whatever the stream holds; either way nothing is taken. Data that
    /// does not lie at an address aligned for `i128` fails with
    /// `AlignmentMismatch`, and nothing is taken either. On success the
    /// values are those that reading `length` fixed `i128` values in the
    /// given byte order would give. A length whose bytes a `usize` cannot
    /// count is an `UnexpectedEnd`.
    pub fn borrow_i128_slice(
        &mut self,
        length: usize,
        num_encoding: NumEncoding,
        endianness: Endianness,
    ) -> (r: Result<&'data [i128], EncodingError>)
        ensures
            final(self).ctxt == old(self).ctxt,
            final(self).stream.reliable() == old(self).stream.reliable(),
            borrow_verdict(num_encoding, endianness, Endianness::spec_native()) matches Err(e) ==> r == Err::<&'data [i128], EncodingError>(
                EncodingError::BorrowError(e),
            ) && final(self).stream == old(self).stream,
            r matches Ok(items) ==> items@.len() == length && 16 * length <= old(self).stream.remaining().len() && final(self).stream.remaining() == old(self).stream.remaining().skip(16 * length) && forall|i: int|
                0 <= i < length ==> #[trigger] items@[i] as int == signed_at(
                    old(self).stream.remaining(),
                    16,
                    i,
                    endianness,
                ),
            old(self).stream.reliable() && r is Err ==> final(self).stream.remaining() == old(self).stream.remaining(),
            borrow_verdict(num_encoding, endianness, Endianness::spec_native()) is Ok && old(self).stream.reliable() ==> if 16 * length <= old(self).stream.remaining().len() && 16 * length <= usize::MAX {
                r is Ok || r == Err::<&'data [i128], EncodingError>(
                    EncodingError::BorrowError(BorrowError::AlignmentMismatch),
                )
            } else {
                r == Err::<&'data [i128], EncodingError>(EncodingError::UnexpectedEnd)
            },
    {
        match check_borrowable(num_encoding, endianness, Endianness::native()) {
            Ok(()) => {},
            Err(e) => {
                return Err(EncodingError::BorrowError(e));
            },
        }
        let count = match byte_count(length, 16) {
            Some(count) => count,
            None => {
                return Err(EncodingError::UnexpectedEnd);
            },
        };
        let bytes = match self.stream.peek(count) {
            Ok(bytes) => bytes,
            Err(e) => {
                return Err(e);
            },
        };
        let items = match cast_i128_slice(bytes) {
            Ok(items) => items,
            Err(_) => {
                return Err(EncodingError::BorrowError(BorrowError::AlignmentMismatch));
            },
        };
        let ghost before = self.stream.remaining();
        match self.stream.borrow_read(count) {
            Ok(_) => {
                proof {
                    assert forall|i: int| 0 <= i < length implies #[trigger] items@[i] as int
                        == signed_at(before, 16, i, endianness) by {
                        assert(16 * i + 16 <= count) by (nonlinear_arith)
                            requires
                                0 <= i < length,
                                count == length * 16,
                        ;
                        assert(bytes@.subrange(16 * i, 16 * i + 16) =~= before.subrange(
                            16 * i,
                            16 * i + 16,
                        ));
                    }
                }
                Ok(items)
            },
            Err(e) => Err(e),
        }
    }

    /// The next `len` sizes, in place.
    ///
    /// Any encoding but the fixed one fails with `NonBorrowableNumEncoding`,
    /// a byte order that is not the machine's with `EndiannessMismatch`, and
    /// a width that is not the machine's with `BitWidthMismatch`, whatever the
    /// stream holds. Data that does not lie at an address aligned for `usize`
    /// fails with `AlignmentMismatch`, and a size above `max_size` with
    /// `MaxSizeExceeded`, which names the first such size of the data: of
    /// aligned data on a reliable stream that error comes exactly where one
    /// of the `len` sizes is above `max_size`. Whatever the failure, nothing
    /// is taken.
    pub fn borrow_usize_slice(
        &mut self,
        len: usize,
        num_encoding: NumEncoding,
        endianness: Endianness,
        bit_width: BitWidth,
    ) -> (r: Result<&'data [usize], EncodingError>)
        ensures
            final(self).ctxt == old(self).ctxt,
            final(self).stream.reliable() == old(self).stream.reliable(),
            borrow_size_verdict(
                num_encoding,
                endianness,
                bit_width,
                Endianness::spec_native(),
                BitWidth::spec_native(),
            ) matches Err(e) ==> r == Err::<&'data [usize], EncodingError>(
                EncodingError::BorrowError(e),
            ) && final(self).stream == old(self).stream,
            r matches Ok(items) ==> items@.len() == len && bit_width.spec_bytes() * len <= old(self).stream.remaining().len()
                && final(self).stream.remaining() == old(self).stream.remaining().skip(bit_width.spec_bytes() * len)
                && forall|i: int|
                0 <= i < len ==> #[trigger] items@[i] as nat == unsigned_at(
                    old(self).stream.remaining(),
                    bit_width.spec_bytes(),
                    i,
                    endianness,
                ) && items@[i] <= old(self).ctxt.settings.size_repr.max_size,
            old(self).stream.reliable() ==> (r matches Err(
                EncodingError::MaxSizeExceeded { max, requested },
            ) ==> max == old(self).ctxt.settings.size_repr.max_size && requested > max
                && bit_width.spec_bytes() * len <= old(self).stream.remaining().len()
                && holds_size(
                old(self).stream.remaining(),
                bit_width.spec_bytes(),
                len as nat,
                endianness,
                requested as nat,
            )),
            old(self).stream.reliable() && r is Err ==> final(self).stream.remaining() == old(self).stream.remaining(),
            borrow_size_verdict(
                num_encoding,
                endianness,
                bit_width,
                Endianness::spec_native(),
                BitWidth::spec_native(),
            ) is Ok && old(self).stream.reliable() ==> if bit_width.spec_bytes() * len <= old(self).stream.remaining().len()
                && bit_width.spec_bytes() * len <= usize::MAX {
                if sizes_within(
                    old(self).stream.remaining(),
                    bit_width.spec_bytes(),
                    len as nat,
                    endianness,
                    old(self).ctxt.settings.size_repr.max_size as nat,
                ) {
                    r is Ok || r == Err::<&'data [usize], EncodingError>(
                        EncodingError::BorrowError(BorrowError::AlignmentMismatch),
                    )
                } else {
                    r matches Err(EncodingError::MaxSizeExceeded { .. }) || r == Err::<
                        &'data [usize],
                        EncodingError,
                    >(EncodingError::BorrowError(BorrowError::AlignmentMismatch))
                }
            } else {
                r == Err::<&'data [usize], EncodingError>(EncodingError::UnexpectedEnd)
            },
    {
        match check_size_borrowable(
            num_encoding,
            endianness,
            bit_width,
            Endianness::native(),
            BitWidth::native(),
        ) {
            Ok(()) => {},
            Err(e) => {
                return Err(EncodingError::BorrowError(e));
            },
        }
        let k = bit_width.bytes();
        assert(bit_width.spec_bytes() * len == len * k) by (nonlinear_arith)
            requires
                k == bit_width.spec_bytes(),
        ;
        let count = match byte_count(len, k) {
            Some(count) => count,
            None => {
                return Err(EncodingError::UnexpectedEnd);
            },
        };
        let bytes = match self.stream.peek(count) {
            Ok(bytes) => bytes,
            Err(e) => {
                return Err(e);
            },
        };
        let items = match cast_usize_slice(bytes) {
            Ok(items) => items,
            Err(_) => {
                return Err(EncodingError::BorrowError(BorrowError::AlignmentMismatch));
            },
        };
        assert(items@.len() == len) by (nonlinear_arith)
            requires
                items@.len() * k == count,
                count == len * k,
                k >= 1,
        ;
        let max = self.ctxt.settings.size_repr.max_size;
        let ghost before = self.stream.remaining();
        proof {
            assert forall|i: int| 0 <= i < len implies #[trigger] items@[i] as nat == unsigned_at(
                before,
                k as nat,
                i,
                endianness,
            ) by {
                assert(k * i + k <= count) by (nonlinear_arith)
                    requires
                        0 <= i < len,
                        count == len * k,
                ;
                assert(bytes@.subrange(k * i, k * i + k) =~= before.subrange(k * i, k * i + k));
            }
        }
        match first_above(items, max) {
            Some(item) => {
                proof {
                    let at = choose|i: int| 0 <= i < items@.len() && items@[i] == item;
                    assert(items@[at] as nat == unsigned_at(before, k as nat, at, endianness));
                    assert(size_at_is(before, k as nat, at, endianness, item as nat));
                }
                return Err(EncodingError::MaxSizeExceeded { max, requested: item });
            },
            None => {
                assert forall|i: int| 0 <= i < len implies #[trigger] unsigned_at(
                    before,
                    k as nat,
                    i,
                    endianness,
                ) <= max by {
                    assert(items@[i] as nat == unsigned_at(before, k as nat, i, endianness));
                }
            },
        }
        match self.stream.borrow_read(count) {
            Ok(_) => Ok(items),
            Err(e) => Err(e),
        }
    }

    /// The next `len` signed sizes, in place. See
    /// [`Encoder::borrow_usize_slice`]; no maximum applies.
    pub fn borrow_isize_slice(
        &mut self,
        len: usize,
        num_encoding: NumEncoding,
        endianness: Endianness,
        bit_width: BitWidth,
    ) -> (r: Result<&'data [isize], EncodingError>)
        ensures
            final(self).ctxt == old(self).ctxt,
            final(self).stream.reliable() == old(self).stream.reliable(),
            borrow_size_verdict(
                num_encoding,
                endianness,
                bit_width,
                Endianness::spec_native(),
                BitWidth::spec_native(),
            ) matches Err(e) ==> r == Err::<&'data [isize], EncodingError>(
                EncodingError::BorrowError(e),
            ) && final(self).stream == old(self).stream,
            r matches Ok(items) ==> items@.len() == len && bit_width.spec_bytes() * len <= old(self).stream.remaining().len()
                && final(self).stream.remaining() == old(self).stream.remaining().skip(bit_width.spec_bytes() * len)
                && forall|i: int|
                0 <= i < len ==> #[trigger] items@[i] as int == signed_at(
                    old(self).stream.remaining(),
                    bit_width.spec_bytes(),
                    i,
                    endianness,
                ),
            old(self).stream.reliable() && r is Err ==> final(self).stream.remaining() == old(self).stream.remaining(),
            borrow_size_verdict(
                num_encoding,
                endianness,
                bit_width,
                Endianness::spec_native(),
                BitWidth::spec_native(),
            ) is Ok && old(self).stream.reliable() ==> if bit_width.spec_bytes() * len <= old(self).stream.remaining().len()
                && bit_width.spec_bytes() * len <= usize::MAX {
                r is Ok || r == Err::<&'data [isize], EncodingError>(
                    EncodingError::BorrowError(BorrowError::AlignmentMismatch),
                )
            } else {
                r == Err::<&'data [isize], EncodingError>(EncodingError::UnexpectedEnd)
            },
    {
        match check_size_borrowable(
            num_encoding,
            endianness,
            bit_width,
            Endianness::native(),
            BitWidth::native(),
        ) {
            Ok(()) => {},
            Err(e) => {
                return Err(EncodingError::BorrowError(e));
            },
        }
        let k = bit_width.bytes();
        assert(bit_width.spec_bytes() * len == len * k) by (nonlinear_arith)
            requires
                k == bit_width.spec_bytes(),
        ;
        let count = match byte_count(len, k) {
            Some(count) => count,
            None => {
                return Err(EncodingError::UnexpectedEnd);
            },
        };
        let bytes = match self.stream.peek(count) {
            Ok(bytes) => bytes,
            Err(e) => {
                return Err(e);
            },
        };
        let items = match cast_isize_slice(bytes) {
            Ok(items) => items,
            Err(_) => {
                return Err(EncodingError::BorrowError(BorrowError::AlignmentMismatch));
            },
        };
        assert(items@.len() == len) by (nonlinear_arith)
            requires
                items@.len() * k == count,
                count == len * k,
                k >= 1,
        ;
        let ghost before = self.stream.remaining();
        match self.stream.borrow_read(count) {
            Ok(_) => {
                proof {
                    assert forall|i: int| 0 <= i < len implies #[trigger] items@[i] as int
                        == signed_at(before, k as nat, i, endianness) by {
                        assert(k * i + k <= count) by (nonlinear_arith)
                            requires
                                0 <= i < len,
                                count == len * k,
                        ;
                        assert(bytes@.subrange(k * i, k * i + k) =~= before.subrange(
                            k * i,
                            k * i + k,
                        ));
                    }
                }
                Ok(items)
            },
            Err(e) => Err(e),
        }
    }
}

} // verus!
