//! An integer wide enough for any size or variant, whatever the bit width it
//! will have on the wire. Values go in without loss and come out through a
//! range check.

use vstd::prelude::*;
use crate::settings::BitWidth;

verus! {

/// An integer in the range from `i128::MIN` to `u128::MAX`, tagged with the
/// sign and the width of the type it was made from.
#[allow(inconsistent_fields)]
#[derive(Clone, Copy, Debug, PartialEq, Eq, Structural)]
pub enum Opaque {
    /// Made from an unsigned integer of the given width.
    Unsigned { value: u128, width: BitWidth },
    /// Made from a signed integer of the given width.
    Signed { value: i128, width: BitWidth },
}

/// An [`Opaque`] did not fit the integer type it was narrowed to.
#[derive(Clone, Copy, Debug, PartialEq, Eq, Structural)]
pub struct OpaqueError {
    /// The value that did not fit.
    pub value: Opaque,
    /// Whether the target type is signed.
    pub signed: bool,
    /// The width of the target type.
    pub width: BitWidth,
}

/// The least value of an integer type of the given sign and number of bits.
pub open spec fn int_min(signed: bool, bits: nat) -> int {
    if signed {
        -(vstd::arithmetic::power2::pow2((bits - 1) as nat) as int)
    } else {
        0
    }
}

/// The greatest value of an integer type of the given sign and number of bits.
pub open spec fn int_max(signed: bool, bits: nat) -> int {
    if signed {
        vstd::arithmetic::power2::pow2((bits - 1) as nat) - 1
    } else {
        vstd::arithmetic::power2::pow2(bits) - 1
    }
}

/// The powers of two that bound the primitive integer types.
pub proof fn lemma_int_bounds()
    ensures
        int_min(false, 8) == 0 && int_max(false, 8) == u8::MAX,
        int_min(false, 16) == 0 && int_max(false, 16) == u16::MAX,
        int_min(false, 32) == 0 && int_max(false, 32) == u32::MAX,
        int_min(false, 64) == 0 && int_max(false, 64) == u64::MAX,
        int_min(false, 128) == 0 && int_max(false, 128) == u128::MAX,
        int_min(true, 8) == i8::MIN && int_max(true, 8) == i8::MAX,
        int_min(true, 16) == i16::MIN && int_max(true, 16) == i16::MAX,
        int_min(true, 32) == i32::MIN && int_max(true, 32) == i32::MAX,
        int_min(true, 64) == i64::MIN && int_max(true, 64) == i64::MAX,
        int_min(true, 128) == i128::MIN && int_max(true, 128) == i128::MAX,
{
    crate::wire::arith::lemma_pow2_values();
}

impl Opaque {
    /// The integer that this value holds.
    pub open spec fn spec_value(&self) -> int {
        match self {
            Opaque::Unsigned { value, .. } => *value as int,
            Opaque::Signed { value, .. } => *value as int,
        }
    }

    /// Whether this value was made from a signed integer.
    pub open spec fn spec_signed(&self) -> bool {
        self is Signed
    }

    /// The width of the integer type this value was made from.
    pub open spec fn spec_width(&self) -> BitWidth {
        match self {
            Opaque::Unsigned { width, .. } => *width,
            Opaque::Signed { width, .. } => *width,
        }
    }

    /// The value made from a `usize`.
    pub open spec fn spec_from_usize(value: usize) -> Opaque {
        Opaque::Unsigned { value: value as u128, width: BitWidth::spec_native() }
    }

    /// The value made from an `isize`.
    pub open spec fn spec_from_isize(value: isize) -> Opaque {
        Opaque::Signed { value: value as i128, width: BitWidth::spec_native() }
    }

    /// Whether the value lies in the range of an integer type of the given
    /// sign and width.
    pub open spec fn fits(&self, signed: bool, width: BitWidth) -> bool {
        int_min(signed, width.spec_bits()) <= self.spec_value() <= int_max(
            signed,
            width.spec_bits(),
        )
    }

    /// Whether this value was made from a signed integer.
    pub fn is_signed(&self) -> (r: bool)
        ensures
            r == self.spec_signed(),
    {
        match self {
            Opaque::Unsigned { .. } => false,
            Opaque::Signed { .. } => true,
        }
    }

    /// The width of the integer type this value was made from.
    pub fn width(&self) -> (r: BitWidth)
        ensures
            r == self.spec_width(),
    {
        match self {
            Opaque::Unsigned { width, .. } => *width,
            Opaque::Signed { width, .. } => *width,
        }
    }

    /// Whether both hold the same integer, whatever type each was made from.
    pub fn same_value(&self, other: &Opaque) -> (r: bool)
        ensures
            r == (self.spec_value() == other.spec_value()),
    {
        match (self, other) {
            (Opaque::Unsigned { value: a, .. }, Opaque::Unsigned { value: b, .. }) => *a == *b,
            (Opaque::Signed { value: a, .. }, Opaque::Signed { value: b, .. }) => *a == *b,
            (Opaque::Unsigned { value: a, .. }, Opaque::Signed { value: b, .. }) => {
                *b >= 0 && *a == *b as u128
            },
            (Opaque::Signed { value: a, .. }, Opaque::Unsigned { value: b, .. }) => {
                *a >= 0 && *a as u128 == *b
            },
        }
    }

    pub fn from_u8(value: u8) -> (r: Self)
        ensures
            r == (Opaque::Unsigned { value: value as u128, width: BitWidth::Bit8 }),
    {
        Opaque::Unsigned { value: value as u128, width: BitWidth::Bit8 }
    }

    pub fn from_u16(value: u16) -> (r: Self)
        ensures
            r == (Opaque::Unsigned { value: value as u128, width: BitWidth::Bit16 }),
    {
        Opaque::Unsigned { value: value as u128, width: BitWidth::Bit16 }
    }

    pub fn from_u32(value: u32) -> (r: Self)
        ensures
            r == (Opaque::Unsigned { value: value as u128, width: BitWidth::Bit32 }),
    {
        Opaque::Unsigned { value: value as u128, width: BitWidth::Bit32 }
    }

    pub fn from_u64(value: u64) -> (r: Self)
        ensures
            r == (Opaque::Unsigned { value: value as u128, width: BitWidth::Bit64 }),
    {
        Opaque::Unsigned { value: value as u128, width: BitWidth::Bit64 }
    }

    pub fn from_u128(value: u128) -> (r: Self)
        ensures
            r == (Opaque::Unsigned { value, width: BitWidth::Bit128 }),
    {
        Opaque::Unsigned { value, width: BitWidth::Bit128 }
    }

    pub fn from_usize(value: usize) -> (r: Self)
        ensures
            r == (Opaque::Unsigned { value: value as u128, width: BitWidth::spec_native() }),
    {
        Opaque::Unsigned { value: value as u128, width: BitWidth::native() }
    }

    pub fn from_i8(value: i8) -> (r: Self)
        ensures
            r == (Opaque::Signed { value: value as i128, width: BitWidth::Bit8 }),
    {
        Opaque::Signed { value: value as i128, width: BitWidth::Bit8 }
    }

    pub fn from_i16(value: i16) -> (r: Self)
        ensures
            r == (Opaque::Signed { value: value as i128, width: BitWidth::Bit16 }),
    {
        Opaque::Signed { value: value as i128, width: BitWidth::Bit16 }
    }

    pub fn from_i32(value: i32) -> (r: Self)
        ensures
            r == (Opaque::Signed { value: value as i128, width: BitWidth::Bit32 }),
    {
        Opaque::Signed { value: value as i128, width: BitWidth::Bit32 }
    }

    pub fn from_i64(value: i64) -> (r: Self)
        ensures
            r == (Opaque::Signed { value: value as i128, width: BitWidth::Bit64 }),
    {
        Opaque::Signed { value: value as i128, width: BitWidth::Bit64 }
    }

    pub fn from_i128(value: i128) -> (r: Self)
        ensures
            r == (Opaque::Signed { value, width: BitWidth::Bit128 }),
    {
        Opaque::Signed { value, width: BitWidth::Bit128 }
    }

    pub fn from_isize(value: isize) -> (r: Self)
        ensures
            r == (Opaque::Signed { value: value as i128, width: BitWidth::spec_native() }),
    {
        Opaque::Signed { value: value as i128, width: BitWidth::native() }
    }

    /// The value as a `u128`, if it is not negative.
    pub fn try_into_u128(self) -> (r: Result<u128, OpaqueError>)
        ensures
            self.spec_value() >= 0 ==> r is Ok && r->Ok_0 as int == self.spec_value(),
            self.spec_value() < 0 ==> r == Err::<u128, OpaqueError>(
                OpaqueError { value: self, signed: false, width: BitWidth::Bit128 },
            ),
            self.fits(false, BitWidth::Bit128) <==> self.spec_value() >= 0,
    {
        proof {
            lemma_int_bounds();
        }
        match self {
            Opaque::Unsigned { value, .. } => Ok(value),
            Opaque::Signed { value, .. } => {
                if value >= 0 {
                    Ok(value as u128)
                } else {
                    Err(OpaqueError { value: self, signed: false, width: BitWidth::Bit128 })
                }
            },
        }
    }

    /// The value as an `i128`, if it is not above `i128::MAX`.
    pub fn try_into_i128(self) -> (r: Result<i128, OpaqueError>)
        ensures
            self.spec_value() <= i128::MAX ==> r is Ok && r->Ok_0 as int == self.spec_value(),
            self.spec_value() > i128::MAX ==> r == Err::<i128, OpaqueError>(
                OpaqueError { value: self, signed: true, width: BitWidth::Bit128 },
            ),
            self.fits(true, BitWidth::Bit128) <==> self.spec_value() <= i128::MAX,
    {
        proof {
            lemma_int_bounds();
        }
        match self {
            Opaque::Signed { value, .. } => Ok(value),
            Opaque::Unsigned { value, .. } => {
                if value <= i128::MAX as u128 {
                    Ok(value as i128)
                } else {
                    Err(OpaqueError { value: self, signed: true, width: BitWidth::Bit128 })
                }
            },
        }
    }

    /// The value as an unsigned integer of `width`, held in a `u128`: the
    /// value itself where it lies between 0 and the greatest value of that
    /// width, and the conversion error otherwise.
    pub fn narrow_unsigned(self, width: BitWidth) -> (r: Result<u128, OpaqueError>)
        ensures
            self.fits(false, width) ==> r is Ok && r->Ok_0 as int == self.spec_value(),
            !self.fits(false, width) ==> r == Err::<u128, OpaqueError>(
                OpaqueError { value: self, signed: false, width },
            ),
    {
        proof {
            lemma_int_bounds();
        }
        let max: u128 = match width {
            BitWidth::Bit8 => u8::MAX as u128,
            BitWidth::Bit16 => u16::MAX as u128,
            BitWidth::Bit32 => u32::MAX as u128,
            BitWidth::Bit64 => u64::MAX as u128,
            BitWidth::Bit128 => u128::MAX,
        };
        match self.try_into_u128() {
            Ok(v) => {
                if v <= max {
                    Ok(v)
                } else {
                    Err(OpaqueError { value: self, signed: false, width })
                }
            },
            Err(_) => Err(OpaqueError { value: self, signed: false, width }),
        }
    }

    /// The value as a signed integer of `width`, held in an `i128`: the value
    /// itself where it lies in the range of that width, and the conversion
    /// error otherwise.
    pub fn narrow_signed(self, width: BitWidth) -> (r: Result<i128, OpaqueError>)
        ensures
            self.fits(true, width) ==> r is Ok && r->Ok_0 as int == self.spec_value(),
            !self.fits(true, width) ==> r == Err::<i128, OpaqueError>(
                OpaqueError { value: self, signed: true, width },
            ),
    {
        proof {
            lemma_int_bounds();
        }
        let (min, max): (i128, i128) = match width {
            BitWidth::Bit8 => (i8::MIN as i128, i8::MAX as i128),
            BitWidth::Bit16 => (i16::MIN as i128, i16::MAX as i128),
            BitWidth::Bit32 => (i32::MIN as i128, i32::MAX as i128),
            BitWidth::Bit64 => (i64::MIN as i128, i64::MAX as i128),
            BitWidth::Bit128 => (i128::MIN, i128::MAX),
        };
        match self.try_into_i128() {
            Ok(v) => {
                if min <= v && v <= max {
                    Ok(v)
                } else {
                    Err(OpaqueError { value: self, signed: true, width })
                }
            },
            Err(_) => Err(OpaqueError { value: self, signed: true, width }),
        }
    }

    pub fn try_into_u8(self) -> (r: Result<u8, OpaqueError>)
        ensures
            self.fits(false, BitWidth::Bit8) ==> r is Ok && r->Ok_0 as int == self.spec_value(),
            !self.fits(false, BitWidth::Bit8) ==> r == Err::<u8, OpaqueError>(
                OpaqueError { value: self, signed: false, width: BitWidth::Bit8 },
            ),
    {
        proof {
            lemma_int_bounds();
        }
        match self.narrow_unsigned(BitWidth::Bit8) {
            Ok(v) => Ok(v as u8),
            Err(e) => Err(e),
        }
    }

    pub fn try_into_u16(self) -> (r: Result<u16, OpaqueError>)
        ensures
            self.fits(false, BitWidth::Bit16) ==> r is Ok && r->Ok_0 as int == self.spec_value(),
            !self.fits(false, BitWidth::Bit16) ==> r == Err::<u16, OpaqueError>(
                OpaqueError { value: self, signed: false, width: BitWidth::Bit16 },
            ),
    {
        proof {
            lemma_int_bounds();
        }
        match self.narrow_unsigned(BitWidth::Bit16) {
            Ok(v) => Ok(v as u16),
            Err(e) => Err(e),
        }
    }

    pub fn try_into_u32(self) -> (r: Result<u32, OpaqueError>)
        ensures
            self.fits(false, BitWidth::Bit32) ==> r is Ok && r->Ok_0 as int == self.spec_value(),
            !self.fits(false, BitWidth::Bit32) ==> r == Err::<u32, OpaqueError>(
                OpaqueError { value: self, signed: false, width: BitWidth::Bit32 },
            ),
    {
        proof {
            lemma_int_bounds();
        }
        match self.narrow_unsigned(BitWidth::Bit32) {
            Ok(v) => Ok(v as u32),
            Err(e) => Err(e),
        }
    }

    pub fn try_into_u64(self) -> (r: Result<u64, OpaqueError>)
        ensures
            self.fits(false, BitWidth::Bit64) ==> r is Ok && r->Ok_0 as int == self.spec_value(),
            !self.fits(false, BitWidth::Bit64) ==> r == Err::<u64, OpaqueError>(
                OpaqueError { value: self, signed: false, width: BitWidth::Bit64 },
            ),
    {
        proof {
            lemma_int_bounds();
        }
        match self.narrow_unsigned(BitWidth::Bit64) {
            Ok(v) => Ok(v as u64),
            Err(e) => Err(e),
        }
    }

    /// The value as a `usize`, if it lies between 0 and `usize::MAX`.
    pub fn try_into_usize(self) -> (r: Result<usize, OpaqueError>)
        ensures
            self.fits(false, BitWidth::spec_native()) ==> r is Ok && r->Ok_0 as int == self.spec_value(),
            !self.fits(false, BitWidth::spec_native()) ==> r == Err::<usize, OpaqueError>(
                OpaqueError { value: self, signed: false, width: BitWidth::spec_native() },
            ),
    {
        proof {
            lemma_int_bounds();
        }
        match self.narrow_unsigned(BitWidth::native()) {
            Ok(v) => Ok(v as usize),
            Err(e) => Err(e),
        }
    }

    pub fn try_into_i8(self) -> (r: Result<i8, OpaqueError>)
        ensures
            self.fits(true, BitWidth::Bit8) ==> r is Ok && r->Ok_0 as int == self.spec_value(),
            !self.fits(true, BitWidth::Bit8) ==> r == Err::<i8, OpaqueError>(
                OpaqueError { value: self, signed: true, width: BitWidth::Bit8 },
            ),
    {
        proof {
            lemma_int_bounds();
        }
        match self.narrow_signed(BitWidth::Bit8) {
            Ok(v) => Ok(v as i8),
            Err(e) => Err(e),
        }
    }

    pub fn try_into_i16(self) -> (r: Result<i16, OpaqueError>)
        ensures
            self.fits(true, BitWidth::Bit16) ==> r is Ok && r->Ok_0 as int == self.spec_value(),
            !self.fits(true, BitWidth::Bit16) ==> r == Err::<i16, OpaqueError>(
                OpaqueError { value: self, signed: true, width: BitWidth::Bit16 },
            ),
    {
        proof {
            lemma_int_bounds();
        }
        match self.narrow_signed(BitWidth::Bit16) {
            Ok(v) => Ok(v as i16),
            Err(e) => Err(e),
        }
    }

    pub fn try_into_i32(self) -> (r: Result<i32, OpaqueError>)
        ensures
            self.fits(true, BitWidth::Bit32) ==> r is Ok && r->Ok_0 as int == self.spec_value(),
            !self.fits(true, BitWidth::Bit32) ==> r == Err::<i32, OpaqueError>(
                OpaqueError { value: self, signed: true, width: BitWidth::Bit32 },
            ),
    {
        proof {
            lemma_int_bounds();
        }
        match self.narrow_signed(BitWidth::Bit32) {
            Ok(v) => Ok(v as i32),
            Err(e) => Err(e),
        }
    }

    pub fn try_into_i64(self) -> (r: Result<i64, OpaqueError>)
        ensures
            self.fits(true, BitWidth::Bit64) ==> r is Ok && r->Ok_0 as int == self.spec_value(),
            !self.fits(true, BitWidth::Bit64) ==> r == Err::<i64, OpaqueError>(
                OpaqueError { value: self, signed: true, width: BitWidth::Bit64 },
            ),
    {
        proof {
            lemma_int_bounds();
        }
        match self.narrow_signed(BitWidth::Bit64) {
            Ok(v) => Ok(v as i64),
            Err(e) => Err(e),
        }
    }

    /// The value as an `isize`, if it lies between `isize::MIN` and `isize::MAX`.
    pub fn try_into_isize(self) -> (r: Result<isize, OpaqueError>)
        ensures
            self.fits(true, BitWidth::spec_native()) ==> r is Ok && r->Ok_0 as int == self.spec_value(),
            !self.fits(true, BitWidth::spec_native()) ==> r == Err::<isize, OpaqueError>(
                OpaqueError { value: self, signed: true, width: BitWidth::spec_native() },
            ),
    {
        proof {
            lemma_int_bounds();
        }
        match self.narrow_signed(BitWidth::native()) {
            Ok(v) => Ok(v as isize),
            Err(e) => Err(e),
        }
    }
}

} // verus!
