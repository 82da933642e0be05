//! The error type shared by every operation, and its coarse classification.

use vstd::prelude::*;
use crate::opaque::Opaque;
use crate::opaque::OpaqueError;
use crate::settings::BitWidth;
use crate::settings::Endianness;
use crate::settings::NumEncoding;
use crate::settings::StrEncoding;

verus! {

/// A coarse class of failure, in the vocabulary of byte-stream I/O.
#[derive(Clone, Copy, Debug, PartialEq, Eq, Hash, Structural)]
pub enum ErrorKind {
    Other,
    NotFound,
    PermissionDenied,
    ConnectionRefused,
    ConnectionReset,
    ConnectionAborted,
    NotConnected,
    AddrInUse,
    AddrNotAvailable,
    BrokenPipe,
    AlreadyExists,
    InvalidInput,
    InvalidData,
    TimedOut,
    Interrupted,
    Unsupported,
    OutOfMemory,
    WriteZero,
}

/// What went wrong with a string or a char.
#[derive(Clone, Copy, Debug, PartialEq, Eq, Hash, Structural)]
pub enum StringError {
    /// A conversion between string types failed.
    ConversionError,
    /// The data holds a char outside ASCII.
    InvalidAscii,
    /// The bytes are not UTF-8.
    InvalidUtf8,
    /// The code units are not UTF-16.
    InvalidUtf16,
    /// The code unit is not a Unicode scalar value.
    InvalidUtf32,
    /// A null-terminated string holds a null before its end.
    InvalidCString,
}

/// A value did not agree with the flatten channel it met.
#[allow(inconsistent_fields)]
#[derive(Clone, Copy, Debug, PartialEq, Eq, Structural)]
pub enum FlattenError {
    /// The channel held something that is no boolean.
    InvalidBool,
    /// A boolean other than the armed one was written.
    BoolMismatch { expected: bool, got: bool },
    /// A variant other than the armed one was written.
    VariantMismatch { expected: Opaque, got: Opaque },
    /// A length other than the armed one was written.
    LenMismatch { expected: usize, got: usize },
}

/// Why data could not be referenced in place. A caller may fall back to a
/// copying decode.
#[allow(inconsistent_fields)]
#[derive(Clone, Copy, Debug, PartialEq, Eq, Structural)]
pub enum BorrowError {
    /// The type cannot be decoded without copying.
    Unsupported,
    /// The string encoding of the stream is not the one asked for.
    StrEncodingMismatch { found: StrEncoding, while_decoding: StrEncoding },
    /// The byte order of the stream is not that of the machine.
    EndiannessMismatch { found: Endianness, system: Endianness },
    /// The bit width of the stream is not that of the machine.
    BitWidthMismatch { found: BitWidth, system: BitWidth },
    /// Only fixed-encoded numbers can be referenced in place.
    NonBorrowableNumEncoding { num_encoding: NumEncoding },
    /// The data does not start at an address aligned for its element type.
    AlignmentMismatch,
}

/// Every way in which encoding or decoding can fail.
#[derive(Debug)]
pub enum EncodingError {
    /// The underlying stream failed.
    IOError(ErrorKind),
    /// The stream ended, or its buffer was full, before the operation was done.
    UnexpectedEnd,
    /// A variable-length integer went on past the width of its type.
    VarIntError,
    /// A code point is no Unicode scalar value.
    InvalidChar,
    /// A boolean byte was neither 0 nor 1.
    InvalidBool,
    /// A string or char could not be encoded or decoded.
    StringError(StringError),
    /// A size above the configured maximum was written or read.
    MaxSizeExceeded { max: usize, requested: usize },
    /// An enum discriminant matched no case.
    InvalidVariant,
    /// A written value disagreed with an armed flatten channel.
    FlattenError(FlattenError),
    /// Shared state could not be acquired.
    LockError,
    /// Data could not be referenced in place.
    BorrowError(BorrowError),
    /// A size or variant does not fit the integer type it was narrowed to.
    OpaqueConversion(OpaqueError),
    /// A user assertion on a field failed.
    ValidationError(String),
}

impl EncodingError {
    /// The I/O class of each error.
    pub open spec fn spec_kind(&self) -> ErrorKind {
        match self {
            EncodingError::IOError(kind) => *kind,
            EncodingError::UnexpectedEnd => ErrorKind::Other,
            EncodingError::FlattenError(_) => ErrorKind::InvalidInput,
            EncodingError::LockError => ErrorKind::Other,
            EncodingError::BorrowError(_) => ErrorKind::Other,
            _ => ErrorKind::InvalidData,
        }
    }

    /// Classifies the error so that it can travel through I/O pipelines: a
    /// stream failure keeps its own kind, a flatten mismatch is invalid input,
    /// an early end, a lock or a borrow failure is `Other`, and everything
    /// else is invalid data.
    pub fn kind(&self) -> (r: ErrorKind)
        ensures
            r == self.spec_kind(),
    {
        match self {
            EncodingError::IOError(kind) => *kind,
            EncodingError::UnexpectedEnd => ErrorKind::Other,
            EncodingError::FlattenError(_) => ErrorKind::InvalidInput,
            EncodingError::LockError => ErrorKind::Other,
            EncodingError::BorrowError(_) => ErrorKind::Other,
            _ => ErrorKind::InvalidData,
        }
    }

    /// Makes the error of a failed user assertion, with its message.
    pub fn validation_error(message: String) -> (r: Self)
        ensures
            r == EncodingError::ValidationError(message),
    {
        EncodingError::ValidationError(message)
    }
}

/// The result of every operation of this library.
pub type EncodingResult<T> = Result<T, EncodingError>;

} // verus!
