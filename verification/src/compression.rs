//! Compression as a stream transform: the algorithms and their levels, and
//! the calls into the libraries that implement them.

use vstd::prelude::*;
use crate::error::EncodingError;
use crate::error::ErrorKind;
use crate::modifier::Transform;

verus! {

/// A level of Zstandard compression.
#[derive(Clone, Copy, Debug, PartialEq, Eq, Hash, Structural)]
pub enum ZStdLevel {
    L1,
    L2,
    L3,
    L4,
    L5,
    L6,
    L7,
    L8,
    L9,
    L10,
    L11,
    L12,
    L13,
    L14,
    L15,
    L16,
    L17,
    L18,
    L19,
    L20,
    L21,
    L22,
}

impl ZStdLevel {
    /// The number of the level.
    pub open spec fn spec_level(&self) -> u8 {
        match self {
            ZStdLevel::L1 => 1,
            ZStdLevel::L2 => 2,
            ZStdLevel::L3 => 3,
            ZStdLevel::L4 => 4,
            ZStdLevel::L5 => 5,
            ZStdLevel::L6 => 6,
            ZStdLevel::L7 => 7,
            ZStdLevel::L8 => 8,
            ZStdLevel::L9 => 9,
            ZStdLevel::L10 => 10,
            ZStdLevel::L11 => 11,
            ZStdLevel::L12 => 12,
            ZStdLevel::L13 => 13,
            ZStdLevel::L14 => 14,
            ZStdLevel::L15 => 15,
            ZStdLevel::L16 => 16,
            ZStdLevel::L17 => 17,
            ZStdLevel::L18 => 18,
            ZStdLevel::L19 => 19,
            ZStdLevel::L20 => 20,
            ZStdLevel::L21 => 21,
            ZStdLevel::L22 => 22,
        }
    }

    /// Returns the number of the level, from 1 to 22.
    pub fn level(&self) -> (r: u8)
        ensures
            r == self.spec_level(),
            1 <= r <= 22,
    {
        match self {
            ZStdLevel::L1 => 1,
            ZStdLevel::L2 => 2,
            ZStdLevel::L3 => 3,
            ZStdLevel::L4 => 4,
            ZStdLevel::L5 => 5,
            ZStdLevel::L6 => 6,
            ZStdLevel::L7 => 7,
            ZStdLevel::L8 => 8,
            ZStdLevel::L9 => 9,
            ZStdLevel::L10 => 10,
            ZStdLevel::L11 => 11,
            ZStdLevel::L12 => 12,
            ZStdLevel::L13 => 13,
            ZStdLevel::L14 => 14,
            ZStdLevel::L15 => 15,
            ZStdLevel::L16 => 16,
            ZStdLevel::L17 => 17,
            ZStdLevel::L18 => 18,
            ZStdLevel::L19 => 19,
            ZStdLevel::L20 => 20,
            ZStdLevel::L21 => 21,
            ZStdLevel::L22 => 22,
        }
    }

    /// Returns the level with the given number, if it is one of Zstandard.
    pub fn from_level(level: u8) -> (r: Option<Self>)
        ensures
            1 <= level <= 22 ==> r is Some && r->Some_0.spec_level() == level,
            !(1 <= level <= 22) ==> r is None,
    {
        if level == 1 {
            Some(ZStdLevel::L1)
        } else if level == 2 {
            Some(ZStdLevel::L2)
        } else if level == 3 {
            Some(ZStdLevel::L3)
        } else if level == 4 {
            Some(ZStdLevel::L4)
        } else if level == 5 {
            Some(ZStdLevel::L5)
        } else if level == 6 {
            Some(ZStdLevel::L6)
        } else if level == 7 {
            Some(ZStdLevel::L7)
        } else if level == 8 {
            Some(ZStdLevel::L8)
        } else if level == 9 {
            Some(ZStdLevel::L9)
        } else if level == 10 {
            Some(ZStdLevel::L10)
        } else if level == 11 {
            Some(ZStdLevel::L11)
        } else if level == 12 {
            Some(ZStdLevel::L12)
        } else if level == 13 {
            Some(ZStdLevel::L13)
        } else if level == 14 {
            Some(ZStdLevel::L14)
        } else if level == 15 {
            Some(ZStdLevel::L15)
        } else if level == 16 {
            Some(ZStdLevel::L16)
        } else if level == 17 {
            Some(ZStdLevel::L17)
        } else if level == 18 {
            Some(ZStdLevel::L18)
        } else if level == 19 {
            Some(ZStdLevel::L19)
        } else if level == 20 {
            Some(ZStdLevel::L20)
        } else if level == 21 {
            Some(ZStdLevel::L21)
        } else if level == 22 {
            Some(ZStdLevel::L22)
        } else {
            None
        }
    }
}

/// A level of zlib compression.
#[derive(Clone, Copy, Debug, PartialEq, Eq, Hash, Structural)]
pub enum ZLibLevel {
    L0,
    L1,
    L2,
    L3,
    L4,
    L5,
    L6,
    L7,
    L8,
    L9,
}

impl ZLibLevel {
    /// The number of the level.
    pub open spec fn spec_level(&self) -> u8 {
        match self {
            ZLibLevel::L0 => 0,
            ZLibLevel::L1 => 1,
            ZLibLevel::L2 => 2,
            ZLibLevel::L3 => 3,
            ZLibLevel::L4 => 4,
            ZLibLevel::L5 => 5,
            ZLibLevel::L6 => 6,
            ZLibLevel::L7 => 7,
            ZLibLevel::L8 => 8,
            ZLibLevel::L9 => 9,
        }
    }

    /// Returns the number of the level, from 0 to 9.
    pub fn level(&self) -> (r: u8)
        ensures
            r == self.spec_level(),
            0 <= r <= 9,
    {
        match self {
            ZLibLevel::L0 => 0,
            ZLibLevel::L1 => 1,
            ZLibLevel::L2 => 2,
            ZLibLevel::L3 => 3,
            ZLibLevel::L4 => 4,
            ZLibLevel::L5 => 5,
            ZLibLevel::L6 => 6,
            ZLibLevel::L7 => 7,
            ZLibLevel::L8 => 8,
            ZLibLevel::L9 => 9,
        }
    }

    /// Returns the level with the given number, if it is one of zlib.
    pub fn from_level(level: u8) -> (r: Option<Self>)
        ensures
            0 <= level <= 9 ==> r is Some && r->Some_0.spec_level() == level,
            !(0 <= level <= 9) ==> r is None,
    {
        if level == 0 {
            Some(ZLibLevel::L0)
        } else if level == 1 {
            Some(ZLibLevel::L1)
        } else if level == 2 {
            Some(ZLibLevel::L2)
        } else if level == 3 {
            Some(ZLibLevel::L3)
        } else if level == 4 {
            Some(ZLibLevel::L4)
        } else if level == 5 {
            Some(ZLibLevel::L5)
        } else if level == 6 {
            Some(ZLibLevel::L6)
        } else if level == 7 {
            Some(ZLibLevel::L7)
        } else if level == 8 {
            Some(ZLibLevel::L8)
        } else if level == 9 {
            Some(ZLibLevel::L9)
        } else {
            None
        }
    }
}

/// A level of deflate compression.
#[derive(Clone, Copy, Debug, PartialEq, Eq, Hash, Structural)]
pub enum DeflateLevel {
    L0,
    L1,
    L2,
    L3,
    L4,
    L5,
    L6,
    L7,
    L8,
    L9,
}

impl DeflateLevel {
    /// The number of the level.
    pub open spec fn spec_level(&self) -> u8 {
        match self {
            DeflateLevel::L0 => 0,
            DeflateLevel::L1 => 1,
            DeflateLevel::L2 => 2,
            DeflateLevel::L3 => 3,
            DeflateLevel::L4 => 4,
            DeflateLevel::L5 => 5,
            DeflateLevel::L6 => 6,
            DeflateLevel::L7 => 7,
            DeflateLevel::L8 => 8,
            DeflateLevel::L9 => 9,
        }
    }

    /// Returns the number of the level, from 0 to 9.
    pub fn level(&self) -> (r: u8)
        ensures
            r == self.spec_level(),
            0 <= r <= 9,
    {
        match self {
            DeflateLevel::L0 => 0,
            DeflateLevel::L1 => 1,
            DeflateLevel::L2 => 2,
            DeflateLevel::L3 => 3,
            DeflateLevel::L4 => 4,
            DeflateLevel::L5 => 5,
            DeflateLevel::L6 => 6,
            DeflateLevel::L7 => 7,
            DeflateLevel::L8 => 8,
            DeflateLevel::L9 => 9,
        }
    }

    /// Returns the level with the given number, if it is one of deflate.
    pub fn from_level(level: u8) -> (r: Option<Self>)
        ensures
            0 <= level <= 9 ==> r is Some && r->Some_0.spec_level() == level,
            !(0 <= level <= 9) ==> r is None,
    {
        if level == 0 {
            Some(DeflateLevel::L0)
        } else if level == 1 {
            Some(DeflateLevel::L1)
        } else if level == 2 {
            Some(DeflateLevel::L2)
        } else if level == 3 {
            Some(DeflateLevel::L3)
        } else if level == 4 {
            Some(DeflateLevel::L4)
        } else if level == 5 {
            Some(DeflateLevel::L5)
        } else if level == 6 {
            Some(DeflateLevel::L6)
        } else if level == 7 {
            Some(DeflateLevel::L7)
        } else if level == 8 {
            Some(DeflateLevel::L8)
        } else if level == 9 {
            Some(DeflateLevel::L9)
        } else {
            None
        }
    }
}

/// A level of gzip compression.
#[derive(Clone, Copy, Debug, PartialEq, Eq, Hash, Structural)]
pub enum GZipLevel {
    L1,
    L2,
    L3,
    L4,
    L5,
    L6,
    L7,
    L8,
    L9,
}

impl GZipLevel {
    /// The number of the level.
    pub open spec fn spec_level(&self) -> u8 {
        match self {
            GZipLevel::L1 => 1,
            GZipLevel::L2 => 2,
            GZipLevel::L3 => 3,
            GZipLevel::L4 => 4,
            GZipLevel::L5 => 5,
            GZipLevel::L6 => 6,
            GZipLevel::L7 => 7,
            GZipLevel::L8 => 8,
            GZipLevel::L9 => 9,
        }
    }

    /// Returns the number of the level, from 1 to 9.
    pub fn level(&self) -> (r: u8)
        ensures
            r == self.spec_level(),
            1 <= r <= 9,
    {
        match self {
            GZipLevel::L1 => 1,
            GZipLevel::L2 => 2,
            GZipLevel::L3 => 3,
            GZipLevel::L4 => 4,
            GZipLevel::L5 => 5,
            GZipLevel::L6 => 6,
            GZipLevel::L7 => 7,
            GZipLevel::L8 => 8,
            GZipLevel::L9 => 9,
        }
    }

    /// Returns the level with the given number, if it is one of gzip.
    pub fn from_level(level: u8) -> (r: Option<Self>)
        ensures
            1 <= level <= 9 ==> r is Some && r->Some_0.spec_level() == level,
            !(1 <= level <= 9) ==> r is None,
    {
        if level == 1 {
            Some(GZipLevel::L1)
        } else if level == 2 {
            Some(GZipLevel::L2)
        } else if level == 3 {
            Some(GZipLevel::L3)
        } else if level == 4 {
            Some(GZipLevel::L4)
        } else if level == 5 {
            Some(GZipLevel::L5)
        } else if level == 6 {
            Some(GZipLevel::L6)
        } else if level == 7 {
            Some(GZipLevel::L7)
        } else if level == 8 {
            Some(GZipLevel::L8)
        } else if level == 9 {
            Some(GZipLevel::L9)
        } else {
            None
        }
    }
}

/// A compression algorithm with its level, or none.
#[derive(Clone, Copy, Debug, PartialEq, Eq, Hash, Structural)]
pub enum Compression {
    /// No compression: the data is its own frame.
    Uncompressed,
    ZStd(ZStdLevel),
    ZLib(ZLibLevel),
    Deflate(DeflateLevel),
    GZip(GZipLevel),
}

impl Compression {
    /// Whether this is no compression.
    pub fn is_none(&self) -> (r: bool)
        ensures
            r == (*self is Uncompressed),
    {
        match self {
            Compression::Uncompressed => true,
            _ => false,
        }
    }

    /// Whether this is Zstandard compression.
    pub fn is_zstd(&self) -> (r: bool)
        ensures
            r == (*self is ZStd),
    {
        match self {
            Compression::ZStd(_) => true,
            _ => false,
        }
    }

    /// Whether this is zlib compression.
    pub fn is_zlib(&self) -> (r: bool)
        ensures
            r == (*self is ZLib),
    {
        match self {
            Compression::ZLib(_) => true,
            _ => false,
        }
    }

    /// Whether this is deflate compression.
    pub fn is_deflate(&self) -> (r: bool)
        ensures
            r == (*self is Deflate),
    {
        match self {
            Compression::Deflate(_) => true,
            _ => false,
        }
    }

    /// Whether this is gzip compression.
    pub fn is_gzip(&self) -> (r: bool)
        ensures
            r == (*self is GZip),
    {
        match self {
            Compression::GZip(_) => true,
            _ => false,
        }
    }
}

/// What is known about compression above the level of single values: the
/// compression to use where none is named.
#[derive(Clone, Copy, Debug, PartialEq, Eq, Structural)]
pub struct CompressionState {
    /// The compression to use where none is named.
    pub compression: Compression,
}

impl CompressionState {
    /// A state that names no compression.
    pub fn new() -> (r: Self)
        ensures
            r.compression == Compression::Uncompressed,
    {
        CompressionState { compression: Compression::Uncompressed }
    }

    /// The compression to use: the named one, or that of this state where
    /// none is named.
    pub fn resolve(&self, named: Option<Compression>) -> (r: Compression)
        ensures
            r == (match named {
                Some(c) => c,
                None => self.compression,
            }),
    {
        match named {
            Some(c) => c,
            None => self.compression,
        }
    }
}

/// What can go wrong in a compression library.
#[derive(Clone, Copy, Debug, PartialEq, Eq, Structural)]
pub enum CompressionError {
    /// The library reported a failure of the given kind.
    IOError(ErrorKind),
}

impl CompressionError {
    /// The encoding error that stands for this error.
    pub fn into_encoding_error(self) -> (r: EncodingError)
        ensures
            r == (match self {
                CompressionError::IOError(kind) => EncodingError::IOError(kind),
            }),
    {
        match self {
            CompressionError::IOError(kind) => EncodingError::IOError(kind),
        }
    }
}

/// The Zstandard frame that the library makes of `data` at `level`, or
/// nothing where the library reports a failure.
pub uninterp spec fn zstd_frame(data: Seq<u8>, level: int) -> Option<Seq<u8>>;

/// What the library makes of bytes that should start with a Zstandard frame:
/// the data of the frame and the number of bytes that follow the frame, or
/// nothing where it finds no whole frame.
pub uninterp spec fn zstd_opened(wire: Seq<u8>) -> Option<(Seq<u8>, nat)>;

/// `zstd::stream::encode_all`: compresses all of `data` into one Zstandard frame. The
/// outcome is a function of the data and the level; `None` stands for a
/// failure that the library reported.
#[verifier::external_body]
fn zstd_compress(data: &[u8], level: i32) -> (r: Option<Vec<u8>>)
    requires
        1 <= level <= 22,
    ensures
        match r {
            Some(frame) => zstd_frame(data@, level as int) == Some(frame@),
            None => zstd_frame(data@, level as int) is None,
        },
{
    zstd::stream::encode_all(data, level).ok()
}

/// `zstd::stream::read::Decoder`, set to a single frame, over a slice: decompresses the one Zstandard
/// frame at the front of `wire`, and tells how many bytes of `wire` were
/// left unread after it. `None` stands for a failure that the library
/// reported, such as bytes that are no frame.
#[verifier::external_body]
fn zstd_decompress(wire: &[u8]) -> (r: Option<(Vec<u8>, usize)>)
    ensures
        match r {
            Some(found) => zstd_opened(wire@) == Some((found.0@, found.1 as nat)),
            None => zstd_opened(wire@) is None,
        },
{
    let mut decoder = zstd::stream::read::Decoder::with_buffer(wire).ok()?.single_frame();
    let mut plain = Vec::new();
    std::io::Read::read_to_end(&mut decoder, &mut plain).ok()?;
    Some((plain, decoder.finish().len()))
}

/// The zlib frame that the library makes of `data` at `level`, or
/// nothing where the library reports a failure.
pub uninterp spec fn zlib_frame(data: Seq<u8>, level: int) -> Option<Seq<u8>>;

/// What the library makes of bytes that should start with a zlib frame:
/// the data of the frame and the number of bytes that follow the frame, or
/// nothing where it finds no whole frame.
pub uninterp spec fn zlib_opened(wire: Seq<u8>) -> Option<(Seq<u8>, nat)>;

/// `flate2::bufread::ZlibEncoder`: compresses all of `data` into one zlib frame. The
/// outcome is a function of the data and the level; `None` stands for a
/// failure that the library reported.
#[verifier::external_body]
fn zlib_compress(data: &[u8], level: u32) -> (r: Option<Vec<u8>>)
    requires
        level <= 9,
    ensures
        match r {
            Some(frame) => zlib_frame(data@, level as int) == Some(frame@),
            None => zlib_frame(data@, level as int) is None,
        },
{
    let mut frame = Vec::new();
    let mut encoder = flate2::bufread::ZlibEncoder::new(data, flate2::Compression::new(level));
    std::io::Read::read_to_end(&mut encoder, &mut frame).ok()?;
    Some(frame)
}

/// `flate2::bufread::ZlibDecoder` over a slice: decompresses the one zlib
/// frame at the front of `wire`, and tells how many bytes of `wire` were
/// left unread after it. `None` stands for a failure that the library
/// reported, such as bytes that are no frame.
#[verifier::external_body]
fn zlib_decompress(wire: &[u8]) -> (r: Option<(Vec<u8>, usize)>)
    ensures
        match r {
            Some(found) => zlib_opened(wire@) == Some((found.0@, found.1 as nat)),
            None => zlib_opened(wire@) is None,
        },
{
    let mut decoder = flate2::bufread::ZlibDecoder::new(wire);
    let mut plain = Vec::new();
    std::io::Read::read_to_end(&mut decoder, &mut plain).ok()?;
    Some((plain, decoder.into_inner().len()))
}

/// The deflate frame that the library makes of `data` at `level`, or
/// nothing where the library reports a failure.
pub uninterp spec fn deflate_frame(data: Seq<u8>, level: int) -> Option<Seq<u8>>;

/// What the library makes of bytes that should start with a deflate frame:
/// the data of the frame and the number of bytes that follow the frame, or
/// nothing where it finds no whole frame.
pub uninterp spec fn deflate_opened(wire: Seq<u8>) -> Option<(Seq<u8>, nat)>;

/// `flate2::bufread::DeflateEncoder`: compresses all of `data` into one deflate frame. The
/// outcome is a function of the data and the level; `None` stands for a
/// failure that the library reported.
#[verifier::external_body]
fn deflate_compress(data: &[u8], level: u32) -> (r: Option<Vec<u8>>)
    requires
        level <= 9,
    ensures
        match r {
            Some(frame) => deflate_frame(data@, level as int) == Some(frame@),
            None => deflate_frame(data@, level as int) is None,
        },
{
    let mut frame = Vec::new();
    let mut encoder = flate2::bufread::DeflateEncoder::new(data, flate2::Compression::new(level));
    std::io::Read::read_to_end(&mut encoder, &mut frame).ok()?;
    Some(frame)
}

/// `flate2::bufread::DeflateDecoder` over a slice: decompresses the one deflate
/// frame at the front of `wire`, and tells how many bytes of `wire` were
/// left unread after it. `None` stands for a failure that the library
/// reported, such as bytes that are no frame.
#[verifier::external_body]
fn deflate_decompress(wire: &[u8]) -> (r: Option<(Vec<u8>, usize)>)
    ensures
        match r {
            Some(found) => deflate_opened(wire@) == Some((found.0@, found.1 as nat)),
            None => deflate_opened(wire@) is None,
        },
{
    let mut decoder = flate2::bufread::DeflateDecoder::new(wire);
    let mut plain = Vec::new();
    std::io::Read::read_to_end(&mut decoder, &mut plain).ok()?;
    Some((plain, decoder.into_inner().len()))
}

/// The gzip frame that the library makes of `data` at `level`, or
/// nothing where the library reports a failure.
pub uninterp spec fn gzip_frame(data: Seq<u8>, level: int) -> Option<Seq<u8>>;

/// What the library makes of bytes that should start with a gzip frame:
/// the data of the frame and the number of bytes that follow the frame, or
/// nothing where it finds no whole frame.
pub uninterp spec fn gzip_opened(wire: Seq<u8>) -> Option<(Seq<u8>, nat)>;

/// `flate2::bufread::GzEncoder`: compresses all of `data` into one gzip frame. The
/// outcome is a function of the data and the level; `None` stands for a
/// failure that the library reported.
#[verifier::external_body]
fn gzip_compress(data: &[u8], level: u32) -> (r: Option<Vec<u8>>)
    requires
        level <= 9,
    ensures
        match r {
            Some(frame) => gzip_frame(data@, level as int) == Some(frame@),
            None => gzip_frame(data@, level as int) is None,
        },
{
    let mut frame = Vec::new();
    let mut encoder = flate2::bufread::GzEncoder::new(data, flate2::Compression::new(level));
    std::io::Read::read_to_end(&mut encoder, &mut frame).ok()?;
    Some(frame)
}

/// `flate2::bufread::GzDecoder` over a slice: decompresses the one gzip
/// frame at the front of `wire`, and tells how many bytes of `wire` were
/// left unread after it. `None` stands for a failure that the library
/// reported, such as bytes that are no frame.
#[verifier::external_body]
fn gzip_decompress(wire: &[u8]) -> (r: Option<(Vec<u8>, usize)>)
    ensures
        match r {
            Some(found) => gzip_opened(wire@) == Some((found.0@, found.1 as nat)),
            None => gzip_opened(wire@) is None,
        },
{
    let mut decoder = flate2::bufread::GzDecoder::new(wire);
    let mut plain = Vec::new();
    std::io::Read::read_to_end(&mut decoder, &mut plain).ok()?;
    Some((plain, decoder.into_inner().len()))
}

impl Compression {
    /// The frame that this compression makes of `plain`, or nothing where
    /// its library fails on `plain`. For no compression the frame is `plain`
    /// itself.
    pub open spec fn spec_frame(&self, plain: Seq<u8>) -> Option<Seq<u8>> {
        match self {
            Compression::Uncompressed => Some(plain),
            Compression::ZStd(level) => zstd_frame(plain, level.spec_level() as int),
            Compression::ZLib(level) => zlib_frame(plain, level.spec_level() as int),
            Compression::Deflate(level) => deflate_frame(plain, level.spec_level() as int),
            Compression::GZip(level) => gzip_frame(plain, level.spec_level() as int),
        }
    }

    /// What this compression makes of bytes that should start with one of
    /// its frames: the data of the frame and the number of bytes that follow
    /// it. For no compression, all of the bytes are the data.
    pub open spec fn spec_opened(&self, wire: Seq<u8>) -> Option<(Seq<u8>, nat)> {
        match self {
            Compression::Uncompressed => Some((wire, 0nat)),
            Compression::ZStd(_) => zstd_opened(wire),
            Compression::ZLib(_) => zlib_opened(wire),
            Compression::Deflate(_) => deflate_opened(wire),
            Compression::GZip(_) => gzip_opened(wire),
        }
    }

    /// The data of the frame at the front of `wire` and the length of that
    /// frame, or nothing where `wire` does not start with a whole frame.
    pub open spec fn spec_taken(&self, wire: Seq<u8>) -> Option<(Seq<u8>, nat)> {
        match self.spec_opened(wire) {
            Some(found) => if found.1 <= wire.len() {
                Some((found.0, (wire.len() - found.1) as nat))
            } else {
                None
            },
            None => None,
        }
    }

    /// Compresses all of `plain` into one frame. Where the library makes a
    /// frame of `plain`, that frame is returned; where it fails, the error
    /// is an `IOError` of kind `Other`. With no compression the frame is
    /// `plain` itself.
    pub fn compress(&self, plain: &[u8]) -> (r: Result<Vec<u8>, CompressionError>)
        ensures
            match self.spec_frame(plain@) {
                Some(frame) => r matches Ok(made) && made@ == frame,
                None => r == Err::<Vec<u8>, CompressionError>(
                    CompressionError::IOError(ErrorKind::Other),
                ),
            },
    {
        let frame = match self {
            Compression::Uncompressed => Some(vstd::slice::slice_to_vec(plain)),
            Compression::ZStd(level) => zstd_compress(plain, level.level() as i32),
            Compression::ZLib(level) => zlib_compress(plain, level.level() as u32),
            Compression::Deflate(level) => deflate_compress(plain, level.level() as u32),
            Compression::GZip(level) => gzip_compress(plain, level.level() as u32),
        };
        match frame {
            Some(frame) => Ok(frame),
            None => Err(CompressionError::IOError(ErrorKind::Other)),
        }
    }

    /// Decompresses the one frame at the front of `wire`. Returns the data
    /// and how many bytes of `wire` the frame took. Bytes that do not start
    /// with a whole frame are an `IOError` of kind `InvalidData`.
    pub fn decompress(&self, wire: &[u8]) -> (r: Result<(Vec<u8>, usize), CompressionError>)
        ensures
            match self.spec_taken(wire@) {
                Some(found) => r matches Ok(got) && got.0@ == found.0 && got.1 == found.1,
                None => r == Err::<(Vec<u8>, usize), CompressionError>(
                    CompressionError::IOError(ErrorKind::InvalidData),
                ),
            },
    {
        let opened = match self {
            Compression::Uncompressed => Some((vstd::slice::slice_to_vec(wire), 0)),
            Compression::ZStd(_) => zstd_decompress(wire),
            Compression::ZLib(_) => zlib_decompress(wire),
            Compression::Deflate(_) => deflate_decompress(wire),
            Compression::GZip(_) => gzip_decompress(wire),
        };
        match opened {
            Some((plain, unread)) => {
                if unread <= wire.len() {
                    Ok((plain, wire.len() - unread))
                } else {
                    Err(CompressionError::IOError(ErrorKind::InvalidData))
                }
            },
            None => Err(CompressionError::IOError(ErrorKind::InvalidData)),
        }
    }
}

impl Transform for Compression {
    open spec fn frame(&self, plain: Seq<u8>) -> Seq<u8> {
        match self.spec_frame(plain) {
            Some(frame) => frame,
            None => Seq::empty(),
        }
    }

    open spec fn opened(&self, wire: Seq<u8>) -> Option<(Seq<u8>, nat)> {
        self.spec_taken(wire)
    }

    open spec fn transparent(&self) -> bool {
        *self is Uncompressed
    }

    open spec fn frames(&self, plain: Seq<u8>) -> bool {
        self.spec_frame(plain) is Some
    }

    open spec fn opens(&self, wire: Seq<u8>) -> bool {
        self.spec_taken(wire) is Some
    }

    proof fn lemma_transparent(&self, bytes: Seq<u8>) {
    }

    fn is_transparent(&self) -> (r: bool) {
        self.is_none()
    }

    fn apply(&self, plain: &[u8]) -> (r: Result<Vec<u8>, EncodingError>)
        ensures
            !self.frames(plain@) ==> r == Err::<Vec<u8>, EncodingError>(
                EncodingError::IOError(ErrorKind::Other),
            ),
    {
        match self.compress(plain) {
            Ok(frame) => Ok(frame),
            Err(e) => Err(e.into_encoding_error()),
        }
    }

    fn revert(&self, wire: &[u8]) -> (r: Result<(Vec<u8>, usize), EncodingError>)
        ensures
            !self.opens(wire@) ==> r == Err::<(Vec<u8>, usize), EncodingError>(
                EncodingError::IOError(ErrorKind::InvalidData),
            ),
    {
        match self.decompress(wire) {
            Ok(found) => Ok(found),
            Err(e) => Err(e.into_encoding_error()),
        }
    }
}

} // verus!
