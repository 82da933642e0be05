//! The integer types that a variant can be written from and read into,
//! told apart by sign at the level of types: an unsigned variant cannot be
//! handed to the signed operations, nor the other way round.

use vstd::prelude::*;
use crate::opaque::Opaque;
use crate::opaque::OpaqueError;
use crate::settings::BitWidth;

verus! {

/// An unsigned primitive integer type.
pub trait Unsigned: Sized + Copy {
    /// The value as a mathematical integer.
    spec fn as_int(self) -> int;

    /// The width of the type.
    spec fn width() -> BitWidth;

    /// The value, widened without loss.
    fn to_opaque(self) -> (r: Opaque)
        ensures
            r == (Opaque::Unsigned { value: self.as_int() as u128, width: Self::width() }),
            0 <= self.as_int() <= u128::MAX,
    ;

    /// The value of `o` in this type, or the conversion error where it does
    /// not fit.
    fn from_opaque(o: Opaque) -> (r: Result<Self, OpaqueError>)
        ensures
            o.fits(false, Self::width()) ==> r is Ok && r->Ok_0.as_int() == o.spec_value(),
            !o.fits(false, Self::width()) ==> r == Err::<Self, OpaqueError>(
                OpaqueError { value: o, signed: false, width: Self::width() },
            ),
    ;
}

/// A signed primitive integer type.
pub trait Signed: Sized + Copy {
    /// The value as a mathematical integer.
    spec fn as_int(self) -> int;

    /// The width of the type.
    spec fn width() -> BitWidth;

    /// The value, widened without loss.
    fn to_opaque(self) -> (r: Opaque)
        ensures
            r == (Opaque::Signed { value: self.as_int() as i128, width: Self::width() }),
            i128::MIN <= self.as_int() <= i128::MAX,
    ;

    /// The value of `o` in this type, or the conversion error where it does
    /// not fit.
    fn from_opaque(o: Opaque) -> (r: Result<Self, OpaqueError>)
        ensures
            o.fits(true, Self::width()) ==> r is Ok && r->Ok_0.as_int() == o.spec_value(),
            !o.fits(true, Self::width()) ==> r == Err::<Self, OpaqueError>(
                OpaqueError { value: o, signed: true, width: Self::width() },
            ),
    ;
}

impl Unsigned for u8 {
    open spec fn as_int(self) -> int {
        self as int
    }

    open spec fn width() -> BitWidth {
        BitWidth::Bit8
    }

    fn to_opaque(self) -> (r: Opaque) {
        Opaque::from_u8(self)
    }

    fn from_opaque(o: Opaque) -> (r: Result<Self, OpaqueError>) {
        o.try_into_u8()
    }
}

impl Unsigned for u16 {
    open spec fn as_int(self) -> int {
        self as int
    }

    open spec fn width() -> BitWidth {
        BitWidth::Bit16
    }

    fn to_opaque(self) -> (r: Opaque) {
        Opaque::from_u16(self)
    }

    fn from_opaque(o: Opaque) -> (r: Result<Self, OpaqueError>) {
        o.try_into_u16()
    }
}

impl Unsigned for u32 {
    open spec fn as_int(self) -> int {
        self as int
    }

    open spec fn width() -> BitWidth {
        BitWidth::Bit32
    }

    fn to_opaque(self) -> (r: Opaque) {
        Opaque::from_u32(self)
    }

    fn from_opaque(o: Opaque) -> (r: Result<Self, OpaqueError>) {
        o.try_into_u32()
    }
}

impl Unsigned for u64 {
    open spec fn as_int(self) -> int {
        self as int
    }

    open spec fn width() -> BitWidth {
        BitWidth::Bit64
    }

    fn to_opaque(self) -> (r: Opaque) {
        Opaque::from_u64(self)
    }

    fn from_opaque(o: Opaque) -> (r: Result<Self, OpaqueError>) {
        o.try_into_u64()
    }
}

impl Unsigned for u128 {
    open spec fn as_int(self) -> int {
        self as int
    }

    open spec fn width() -> BitWidth {
        BitWidth::Bit128
    }

    fn to_opaque(self) -> (r: Opaque) {
        Opaque::from_u128(self)
    }

    fn from_opaque(o: Opaque) -> (r: Result<Self, OpaqueError>) {
        o.try_into_u128()
    }
}

impl Unsigned for usize {
    open spec fn as_int(self) -> int {
        self as int
    }

    open spec fn width() -> BitWidth {
        BitWidth::spec_native()
    }

    fn to_opaque(self) -> (r: Opaque) {
        Opaque::from_usize(self)
    }

    fn from_opaque(o: Opaque) -> (r: Result<Self, OpaqueError>) {
        o.try_into_usize()
    }
}

impl Signed for i8 {
    open spec fn as_int(self) -> int {
        self as int
    }

    open spec fn width() -> BitWidth {
        BitWidth::Bit8
    }

    fn to_opaque(self) -> (r: Opaque) {
        Opaque::from_i8(self)
    }

    fn from_opaque(o: Opaque) -> (r: Result<Self, OpaqueError>) {
        o.try_into_i8()
    }
}

impl Signed for i16 {
    open spec fn as_int(self) -> int {
        self as int
    }

    open spec fn width() -> BitWidth {
        BitWidth::Bit16
    }

    fn to_opaque(self) -> (r: Opaque) {
        Opaque::from_i16(self)
    }

    fn from_opaque(o: Opaque) -> (r: Result<Self, OpaqueError>) {
        o.try_into_i16()
    }
}

impl Signed for i32 {
    open spec fn as_int(self) -> int {
        self as int
    }

    open spec fn width() -> BitWidth {
        BitWidth::Bit32
    }

    fn to_opaque(self) -> (r: Opaque) {
        Opaque::from_i32(self)
    }

    fn from_opaque(o: Opaque) -> (r: Result<Self, OpaqueError>) {
        o.try_into_i32()
    }
}

impl Signed for i64 {
    open spec fn as_int(self) -> int {
        self as int
    }

    open spec fn width() -> BitWidth {
        BitWidth::Bit64
    }

    fn to_opaque(self) -> (r: Opaque) {
        Opaque::from_i64(self)
    }

    fn from_opaque(o: Opaque) -> (r: Result<Self, OpaqueError>) {
        o.try_into_i64()
    }
}

impl Signed for i128 {
    open spec fn as_int(self) -> int {
        self as int
    }

    open spec fn width() -> BitWidth {
        BitWidth::Bit128
    }

    fn to_opaque(self) -> (r: Opaque) {
        Opaque::from_i128(self)
    }

    fn from_opaque(o: Opaque) -> (r: Result<Self, OpaqueError>) {
        o.try_into_i128()
    }
}

impl Signed for isize {
    open spec fn as_int(self) -> int {
        self as int
    }

    open spec fn width() -> BitWidth {
        BitWidth::spec_native()
    }

    fn to_opaque(self) -> (r: Opaque) {
        Opaque::from_isize(self)
    }

    fn from_opaque(o: Opaque) -> (r: Result<Self, OpaqueError>) {
        o.try_into_isize()
    }
}

} // verus!
