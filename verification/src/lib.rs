//! A binary encoding and decoding engine for custom wire protocols and file
//! formats. How a value is laid out (byte order, integer encoding, bit width
//! of sizes and variants, string encoding) is decided by the settings carried
//! in a [`Context`], not by the value's type.

pub mod codec;
pub mod compression;
pub mod compression_codec;
pub mod compression_text;
pub mod containers;
pub mod context;
pub mod encoder;
pub mod error;
pub mod flags;
pub mod impls;
pub mod io;
pub mod laws;
pub mod modifier;
pub mod opaque;
pub mod roundtrip;
pub mod settings;
pub mod sign;
pub mod wire;

pub use codec::decode_keeping;
pub use codec::decode_with;
pub use codec::encode_keeping;
pub use codec::encode_with;
pub use codec::BorrowDecode;
pub use codec::Decode;
pub use codec::Encode;
pub use codec::SeekBorrowDecode;
pub use codec::SeekDecode;
pub use codec::SeekEncode;
pub use compression::Compression;
pub use compression::CompressionError;
pub use compression::CompressionState;
pub use compression::DeflateLevel;
pub use compression::GZipLevel;
pub use compression::ZLibLevel;
pub use compression::ZStdLevel;
pub use compression_text::CompressionTextError;
pub use context::Context;
pub use context::State;
pub use encoder::Encoder;
pub use error::BorrowError;
pub use error::EncodingError;
pub use error::EncodingResult;
pub use error::ErrorKind;
pub use error::FlattenError;
pub use error::StringError;
pub use modifier::decode_with_compression;
pub use modifier::decode_with_encryption;
pub use modifier::encode_with_compression;
pub use modifier::encode_with_encryption;
pub use modifier::Transform;
pub use opaque::Opaque;
pub use opaque::OpaqueError;
pub use settings::BinSettings;
pub use settings::BitWidth;
pub use settings::Endianness;
pub use settings::NumEncoding;
pub use settings::NumRepr;
pub use settings::SizeRepr;
pub use settings::StrEncoding;
pub use settings::StringRepr;
pub use settings::VariantRepr;
pub use sign::Signed;
pub use sign::Unsigned;
