//! Representation settings: byte order, integer encoding, bit width and
//! string encoding, and the records that group them per target.

use vstd::prelude::*;
use vstd::endian::Endian;
use vstd::endian::endianness;

verus! {

/// The order in which the bytes of a fixed-width value are written.
#[derive(Clone, Copy, Debug, PartialEq, Eq, Hash, Structural)]
pub enum Endianness {
    /// Least significant byte first.
    LittleEndian,
    /// Most significant byte first.
    BigEndian,
}

/// `u16::to_ne_bytes`: the two bytes of `v` as they lie in memory, which is
/// least significant byte first exactly on a little-endian machine.
#[verifier::external_body]
fn native_bytes_u16(v: u16) -> (r: [u8; 2])
    ensures
        r@ == (match endianness() {
            Endian::Little => seq![(v % 256) as u8, (v / 256) as u8],
            Endian::Big => seq![(v / 256) as u8, (v % 256) as u8],
        }),
{
    v.to_ne_bytes()
}

impl Endianness {
    /// The byte order of the machine, as a specification value.
    pub open spec fn spec_native() -> Endianness {
        match endianness() {
            Endian::Little => Endianness::LittleEndian,
            Endian::Big => Endianness::BigEndian,
        }
    }

    /// Returns the byte order of the machine this code runs on.
    pub fn native() -> (r: Self)
        ensures
            r == Self::spec_native(),
    {
        let probe = native_bytes_u16(1);
        if probe[0] == 1 {
            Endianness::LittleEndian
        } else {
            Endianness::BigEndian
        }
    }
}

impl Default for Endianness {
    fn default() -> (r: Self)
        ensures
            r == Endianness::BigEndian,
    {
        Endianness::BigEndian
    }
}

/// How the bits of an integer are laid out on the wire.
#[derive(Clone, Copy, Debug, PartialEq, Eq, Hash, Structural)]
pub enum NumEncoding {
    /// All bytes of the value, ordered by the [`Endianness`].
    Fixed,
    /// Groups of seven bits, least significant first; signed values are
    /// sign-extended. The byte order setting is ignored.
    Leb128,
    /// Like `Leb128` for unsigned values; a signed value is reinterpreted as
    /// unsigned first, so a negative one costs the full width.
    ProtobufWasteful,
    /// Like `Leb128` for unsigned values; a signed value is mapped to an
    /// unsigned one whose lowest bit carries the sign.
    ProtobufZigzag,
}

impl NumEncoding {
    /// Whether a slice of values in this encoding can be referenced in place.
    /// Only `Fixed` can.
    pub fn borrowable(&self) -> (r: bool)
        ensures
            r == (*self == NumEncoding::Fixed),
    {
        match self {
            NumEncoding::Fixed => true,
            _ => false,
        }
    }
}

impl Default for NumEncoding {
    fn default() -> (r: Self)
        ensures
            r == NumEncoding::Fixed,
    {
        NumEncoding::Fixed
    }
}

/// How many bits a size or a variant occupies on the wire.
#[derive(Clone, Copy, Debug, PartialEq, Eq, Hash, Structural)]
pub enum BitWidth {
    Bit8,
    Bit16,
    Bit32,
    Bit64,
    Bit128,
}

impl BitWidth {
    /// The number of bits of this width.
    pub open spec fn spec_bits(&self) -> nat {
        match self {
            BitWidth::Bit8 => 8,
            BitWidth::Bit16 => 16,
            BitWidth::Bit32 => 32,
            BitWidth::Bit64 => 64,
            BitWidth::Bit128 => 128,
        }
    }

    /// The number of bytes of this width.
    pub open spec fn spec_bytes(&self) -> nat {
        match self {
            BitWidth::Bit8 => 1,
            BitWidth::Bit16 => 2,
            BitWidth::Bit32 => 4,
            BitWidth::Bit64 => 8,
            BitWidth::Bit128 => 16,
        }
    }

    /// The width of `usize` on the machine, as a specification value.
    pub open spec fn spec_native() -> BitWidth {
        if usize::BITS == 8 {
            BitWidth::Bit8
        } else if usize::BITS == 16 {
            BitWidth::Bit16
        } else if usize::BITS == 32 {
            BitWidth::Bit32
        } else if usize::BITS == 64 {
            BitWidth::Bit64
        } else {
            BitWidth::Bit128
        }
    }

    /// Returns the width of `usize` and `isize` on the machine this code runs on.
    pub fn native() -> (r: BitWidth)
        ensures
            r == Self::spec_native(),
            r.spec_bits() == usize::BITS,
    {
        let bits: u32 = usize::BITS;
        if bits == 32 {
            BitWidth::Bit32
        } else {
            BitWidth::Bit64
        }
    }

    /// Returns the number of bits of this width.
    pub fn bits(&self) -> (r: usize)
        ensures
            r == self.spec_bits(),
    {
        match self {
            BitWidth::Bit8 => 8,
            BitWidth::Bit16 => 16,
            BitWidth::Bit32 => 32,
            BitWidth::Bit64 => 64,
            BitWidth::Bit128 => 128,
        }
    }

    /// Returns the number of bytes of this width.
    pub fn bytes(&self) -> (r: usize)
        ensures
            r == self.spec_bytes(),
            r * 8 == self.spec_bits(),
    {
        match self {
            BitWidth::Bit8 => 1,
            BitWidth::Bit16 => 2,
            BitWidth::Bit32 => 4,
            BitWidth::Bit64 => 8,
            BitWidth::Bit128 => 16,
        }
    }
}

impl Default for BitWidth {
    fn default() -> (r: Self)
        ensures
            r == BitWidth::Bit64,
    {
        BitWidth::Bit64
    }
}

/// The encoding of chars and strings.
#[derive(Clone, Copy, Debug, PartialEq, Eq, Hash, Structural)]
pub enum StrEncoding {
    Utf8,
    Utf16,
    Utf32,
}

impl StrEncoding {
    /// The number of bytes of one code unit.
    pub open spec fn spec_bytes(&self) -> nat {
        match self {
            StrEncoding::Utf8 => 1,
            StrEncoding::Utf16 => 2,
            StrEncoding::Utf32 => 4,
        }
    }

    /// Returns the number of bytes of one code unit of this encoding.
    pub fn bytes(&self) -> (r: usize)
        ensures
            r == self.spec_bytes(),
    {
        match self {
            StrEncoding::Utf8 => 1,
            StrEncoding::Utf16 => 2,
            StrEncoding::Utf32 => 4,
        }
    }
}

impl Default for StrEncoding {
    fn default() -> (r: Self)
        ensures
            r == StrEncoding::Utf8,
    {
        StrEncoding::Utf8
    }
}

/// How plain numbers are represented.
#[derive(Clone, Copy, Debug, PartialEq, Eq, Hash, Structural)]
pub struct NumRepr {
    pub endianness: Endianness,
    pub num_encoding: NumEncoding,
}

impl NumRepr {
    /// The default: little endian, fixed encoding.
    pub open spec fn spec_new() -> NumRepr {
        NumRepr { endianness: Endianness::LittleEndian, num_encoding: NumEncoding::Fixed }
    }

    /// Returns the default number representation: little endian, fixed encoding.
    pub fn new() -> (r: Self)
        ensures
            r == Self::spec_new(),
    {
        NumRepr { endianness: Endianness::LittleEndian, num_encoding: NumEncoding::Fixed }
    }
}

impl Default for NumRepr {
    fn default() -> (r: Self)
        ensures
            r == NumRepr::spec_new(),
    {
        NumRepr::new()
    }
}

/// How sizes are represented, and the greatest size that may be written or read.
#[derive(Clone, Copy, Debug, PartialEq, Eq, Hash, Structural)]
pub struct SizeRepr {
    pub endianness: Endianness,
    pub num_encoding: NumEncoding,
    pub width: BitWidth,
    /// Inclusive upper bound on every size written or read.
    pub max_size: usize,
}

impl SizeRepr {
    /// The default: little endian, fixed encoding, 64 bits, no bound below `usize::MAX`.
    pub open spec fn spec_new() -> SizeRepr {
        SizeRepr {
            endianness: Endianness::LittleEndian,
            num_encoding: NumEncoding::Fixed,
            width: BitWidth::Bit64,
            max_size: usize::MAX,
        }
    }

    /// Returns the default size representation: little endian, fixed encoding,
    /// 64 bits wide, with `usize::MAX` as the greatest size.
    pub fn new() -> (r: Self)
        ensures
            r == Self::spec_new(),
    {
        SizeRepr {
            endianness: Endianness::LittleEndian,
            num_encoding: NumEncoding::Fixed,
            width: BitWidth::Bit64,
            max_size: usize::MAX,
        }
    }
}

impl Default for SizeRepr {
    fn default() -> (r: Self)
        ensures
            r == SizeRepr::spec_new(),
    {
        SizeRepr::new()
    }
}

/// How enum variants are represented.
#[derive(Clone, Copy, Debug, PartialEq, Eq, Hash, Structural)]
pub struct VariantRepr {
    pub endianness: Endianness,
    pub num_encoding: NumEncoding,
    pub width: BitWidth,
}

impl VariantRepr {
    /// The default: little endian, fixed encoding, 32 bits.
    pub open spec fn spec_new() -> VariantRepr {
        VariantRepr {
            endianness: Endianness::LittleEndian,
            num_encoding: NumEncoding::Fixed,
            width: BitWidth::Bit32,
        }
    }

    /// Returns the default variant representation: little endian, fixed
    /// encoding, 32 bits wide.
    pub fn new() -> (r: Self)
        ensures
            r == Self::spec_new(),
    {
        VariantRepr {
            endianness: Endianness::LittleEndian,
            num_encoding: NumEncoding::Fixed,
            width: BitWidth::Bit32,
        }
    }
}

impl Default for VariantRepr {
    fn default() -> (r: Self)
        ensures
            r == VariantRepr::spec_new(),
    {
        VariantRepr::new()
    }
}

/// How chars and strings are represented.
#[derive(Clone, Copy, Debug, PartialEq, Eq, Hash, Structural)]
pub struct StringRepr {
    pub str_encoding: StrEncoding,
    pub endianness: Endianness,
}

impl StringRepr {
    /// The default: UTF-8, little endian.
    pub open spec fn spec_new() -> StringRepr {
        StringRepr { str_encoding: StrEncoding::Utf8, endianness: Endianness::LittleEndian }
    }

    /// Returns the default string representation: UTF-8, little endian.
    pub fn new() -> (r: Self)
        ensures
            r == Self::spec_new(),
    {
        StringRepr { str_encoding: StrEncoding::Utf8, endianness: Endianness::LittleEndian }
    }
}

impl Default for StringRepr {
    fn default() -> (r: Self)
        ensures
            r == StringRepr::spec_new(),
    {
        StringRepr::new()
    }
}

/// The four representation records together.
#[derive(Clone, Copy, Debug, PartialEq, Eq, Hash, Structural)]
pub struct BinSettings {
    pub num_repr: NumRepr,
    pub size_repr: SizeRepr,
    pub variant_repr: VariantRepr,
    pub string_repr: StringRepr,
}

impl BinSettings {
    /// The default of each record.
    pub open spec fn spec_new() -> BinSettings {
        BinSettings {
            num_repr: NumRepr::spec_new(),
            size_repr: SizeRepr::spec_new(),
            variant_repr: VariantRepr::spec_new(),
            string_repr: StringRepr::spec_new(),
        }
    }

    /// Returns the settings made of the default of each record.
    pub fn new() -> (r: Self)
        ensures
            r == Self::spec_new(),
    {
        BinSettings {
            num_repr: NumRepr::new(),
            size_repr: SizeRepr::new(),
            variant_repr: VariantRepr::new(),
            string_repr: StringRepr::new(),
        }
    }
}

impl Default for BinSettings {
    fn default() -> (r: Self)
        ensures
            r == BinSettings::spec_new(),
    {
        BinSettings::new()
    }
}

} // verus!
