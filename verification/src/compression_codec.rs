//! The codecs of compressions and their levels. Each is written as a
//! variant of eight bits in fixed encoding, whatever the variant settings of
//! the context: the settings are overridden for the write or read and put
//! back afterwards.

use vstd::prelude::*;
use crate::codec::lemma_parts_compose;
use crate::codec::Decode;
use crate::codec::Encode;
use crate::codec::Image;
use crate::compression::Compression;
use crate::compression::DeflateLevel;
use crate::compression::GZipLevel;
use crate::compression::ZLibLevel;
use crate::compression::ZStdLevel;
use crate::context::State;
use crate::encoder::read::narrowed_variant;
use crate::encoder::write::variant_image;
use crate::encoder::Encoder;
use crate::error::EncodingError;
use crate::io::Read;
use crate::io::Write;
use crate::opaque::Opaque;
use crate::settings::BinSettings;
use crate::settings::BitWidth;
use crate::settings::NumEncoding;
use crate::settings::VariantRepr;
use crate::wire::number::reads;
use crate::wire::number::Parsed;

verus! {

/// The state with variants set to eight bits in fixed encoding.
pub open spec fn small_variants(state: State) -> State {
    State {
        settings: BinSettings {
            variant_repr: VariantRepr {
                num_encoding: NumEncoding::Fixed,
                width: BitWidth::Bit8,
                ..state.settings.variant_repr
            },
            ..state.settings
        },
        ..state
    }
}

/// What writing `tag` as a variant of eight bits calls for.
pub open spec fn tag_image(state: State, tag: u8) -> Result<Image, EncodingError> {
    match variant_image(
        small_variants(state),
        Opaque::Unsigned { value: tag as u128, width: BitWidth::Bit8 },
    ) {
        Ok(bytes) => Ok(Image { bytes, state: state.without_variant() }),
        Err(e) => Err(e),
    }
}

/// What the bytes `s` stand for as a variant of eight bits.
pub open spec fn tag_parse(state: State, s: Seq<u8>) -> Result<Parsed<u8>, EncodingError> {
    match narrowed_variant(small_variants(state), s, false, BitWidth::Bit8) {
        Ok(p) => Ok(Parsed { value: p.value as u8, len: p.len }),
        Err(e) => Err(e),
    }
}

/// Writes `tag` as a variant of eight bits in fixed encoding. On success
/// the settings are as they were.
pub fn write_tag<'a, W: Write, U>(encoder: &mut Encoder<'a, W, U>, tag: u8) -> (r: Result<
    (),
    EncodingError,
>)
    ensures
        crate::codec::encoded(
            *old(encoder),
            *final(encoder),
            r,
            tag_image(old(encoder).ctxt.spec_state(), tag),
        ),
        r is Ok ==> final(encoder).ctxt.settings == old(encoder).ctxt.settings,
{
    let saved = encoder.ctxt.settings.variant_repr;
    encoder.ctxt.settings.variant_repr.num_encoding = NumEncoding::Fixed;
    encoder.ctxt.settings.variant_repr.width = BitWidth::Bit8;
    assert(encoder.ctxt.spec_state() == small_variants(old(encoder).ctxt.spec_state()));
    match encoder.write_uvariant(tag) {
        Ok(()) => {
            encoder.ctxt.settings.variant_repr = saved;
            Ok(())
        },
        Err(e) => Err(e),
    }
}

/// Reads a variant of eight bits in fixed encoding. On success the settings
/// are as they were.
pub fn read_tag<'a, R: Read, U>(decoder: &mut Encoder<'a, R, U>) -> (r: Result<u8, EncodingError>)
    ensures
        reads(
            old(decoder).stream,
            final(decoder).stream,
            r,
            |v: u8| v,
            tag_parse(old(decoder).ctxt.spec_state(), old(decoder).stream.remaining()),
        ),
        r is Ok ==> final(decoder).ctxt.spec_state() == old(
            decoder,
        ).ctxt.spec_state().without_variant() && final(decoder).ctxt.user == old(decoder).ctxt.user,
{
    let saved = decoder.ctxt.settings.variant_repr;
    decoder.ctxt.settings.variant_repr.num_encoding = NumEncoding::Fixed;
    decoder.ctxt.settings.variant_repr.width = BitWidth::Bit8;
    assert(decoder.ctxt.spec_state() == small_variants(old(decoder).ctxt.spec_state()));
    match decoder.read_uvariant::<u8>() {
        Ok(tag) => {
            decoder.ctxt.settings.variant_repr = saved;
            Ok(tag)
        },
        Err(e) => Err(e),
    }
}

impl Encode for ZStdLevel {
    open spec fn image(&self, state: State) -> Result<Image, EncodingError> {
        tag_image(state, self.spec_level())
    }

    proof fn lemma_image_keeps_settings(&self, state: State) {
    }

    fn encode<'a, W: Write, U>(&self, encoder: &mut Encoder<'a, W, U>) -> (r: Result<
        (),
        EncodingError,
    >) {
        write_tag(encoder, self.level())
    }
}

impl Decode for ZStdLevel {
    type Model = ZStdLevel;

    open spec fn model(&self) -> ZStdLevel {
        *self
    }

    open spec fn parse(state: State, s: Seq<u8>) -> Result<Parsed<ZStdLevel>, EncodingError> {
        match tag_parse(state, s) {
            Err(e) => Err(e),
            Ok(tag) => if 1 <= tag.value <= 22 {
                Ok(
                    Parsed {
                        value: choose|l: ZStdLevel| l.spec_level() == tag.value,
                        len: tag.len,
                    },
                )
            } else {
                Err(EncodingError::InvalidVariant)
            },
        }
    }

    open spec fn state_after(state: State, s: Seq<u8>) -> State {
        state.without_variant()
    }

    proof fn lemma_parse_keeps_settings(state: State, s: Seq<u8>) {
    }

    fn decode<'a, R: Read, U>(decoder: &mut Encoder<'a, R, U>) -> (r: Result<Self, EncodingError>) {
        let tag = match read_tag(decoder) {
            Ok(tag) => tag,
            Err(e) => {
                return Err(e);
            },
        };
        match ZStdLevel::from_level(tag) {
            Some(level) => Ok(level),
            None => Err(EncodingError::InvalidVariant),
        }
    }
}

impl Encode for ZLibLevel {
    open spec fn image(&self, state: State) -> Result<Image, EncodingError> {
        tag_image(state, self.spec_level())
    }

    proof fn lemma_image_keeps_settings(&self, state: State) {
    }

    fn encode<'a, W: Write, U>(&self, encoder: &mut Encoder<'a, W, U>) -> (r: Result<
        (),
        EncodingError,
    >) {
        write_tag(encoder, self.level())
    }
}

impl Decode for ZLibLevel {
    type Model = ZLibLevel;

    open spec fn model(&self) -> ZLibLevel {
        *self
    }

    open spec fn parse(state: State, s: Seq<u8>) -> Result<Parsed<ZLibLevel>, EncodingError> {
        match tag_parse(state, s) {
            Err(e) => Err(e),
            Ok(tag) => if 0 <= tag.value <= 9 {
                Ok(
                    Parsed {
                        value: choose|l: ZLibLevel| l.spec_level() == tag.value,
                        len: tag.len,
                    },
                )
            } else {
                Err(EncodingError::InvalidVariant)
            },
        }
    }

    open spec fn state_after(state: State, s: Seq<u8>) -> State {
        state.without_variant()
    }

    proof fn lemma_parse_keeps_settings(state: State, s: Seq<u8>) {
    }

    fn decode<'a, R: Read, U>(decoder: &mut Encoder<'a, R, U>) -> (r: Result<Self, EncodingError>) {
        let tag = match read_tag(decoder) {
            Ok(tag) => tag,
            Err(e) => {
                return Err(e);
            },
        };
        match ZLibLevel::from_level(tag) {
            Some(level) => Ok(level),
            None => Err(EncodingError::InvalidVariant),
        }
    }
}

impl Encode for DeflateLevel {
    open spec fn image(&self, state: State) -> Result<Image, EncodingError> {
        tag_image(state, self.spec_level())
    }

    proof fn lemma_image_keeps_settings(&self, state: State) {
    }

    fn encode<'a, W: Write, U>(&self, encoder: &mut Encoder<'a, W, U>) -> (r: Result<
        (),
        EncodingError,
    >) {
        write_tag(encoder, self.level())
    }
}

impl Decode for DeflateLevel {
    type Model = DeflateLevel;

    open spec fn model(&self) -> DeflateLevel {
        *self
    }

    open spec fn parse(state: State, s: Seq<u8>) -> Result<Parsed<DeflateLevel>, EncodingError> {
        match tag_parse(state, s) {
            Err(e) => Err(e),
            Ok(tag) => if 0 <= tag.value <= 9 {
                Ok(
                    Parsed {
                        value: choose|l: DeflateLevel| l.spec_level() == tag.value,
                        len: tag.len,
                    },
                )
            } else {
                Err(EncodingError::InvalidVariant)
            },
        }
    }

    open spec fn state_after(state: State, s: Seq<u8>) -> State {
        state.without_variant()
    }

    proof fn lemma_parse_keeps_settings(state: State, s: Seq<u8>) {
    }

    fn decode<'a, R: Read, U>(decoder: &mut Encoder<'a, R, U>) -> (r: Result<Self, EncodingError>) {
        let tag = match read_tag(decoder) {
            Ok(tag) => tag,
            Err(e) => {
                return Err(e);
            },
        };
        match DeflateLevel::from_level(tag) {
            Some(level) => Ok(level),
            None => Err(EncodingError::InvalidVariant),
        }
    }
}

impl Encode for GZipLevel {
    open spec fn image(&self, state: State) -> Result<Image, EncodingError> {
        tag_image(state, self.spec_level())
    }

    proof fn lemma_image_keeps_settings(&self, state: State) {
    }

    fn encode<'a, W: Write, U>(&self, encoder: &mut Encoder<'a, W, U>) -> (r: Result<
        (),
        EncodingError,
    >) {
        write_tag(encoder, self.level())
    }
}

impl Decode for GZipLevel {
    type Model = GZipLevel;

    open spec fn model(&self) -> GZipLevel {
        *self
    }

    open spec fn parse(state: State, s: Seq<u8>) -> Result<Parsed<GZipLevel>, EncodingError> {
        match tag_parse(state, s) {
            Err(e) => Err(e),
            Ok(tag) => if 1 <= tag.value <= 9 {
                Ok(
                    Parsed {
                        value: choose|l: GZipLevel| l.spec_level() == tag.value,
                        len: tag.len,
                    },
                )
            } else {
                Err(EncodingError::InvalidVariant)
            },
        }
    }

    open spec fn state_after(state: State, s: Seq<u8>) -> State {
        state.without_variant()
    }

    proof fn lemma_parse_keeps_settings(state: State, s: Seq<u8>) {
    }

    fn decode<'a, R: Read, U>(decoder: &mut Encoder<'a, R, U>) -> (r: Result<Self, EncodingError>) {
        let tag = match read_tag(decoder) {
            Ok(tag) => tag,
            Err(e) => {
                return Err(e);
            },
        };
        match GZipLevel::from_level(tag) {
            Some(level) => Ok(level),
            None => Err(EncodingError::InvalidVariant),
        }
    }
}

impl Compression {
    /// The number that stands for the algorithm on the wire.
    pub open spec fn spec_tag(&self) -> u8 {
        match self {
            Compression::Uncompressed => 0,
            Compression::ZStd(_) => 1,
            Compression::ZLib(_) => 2,
            Compression::Deflate(_) => 3,
            Compression::GZip(_) => 4,
        }
    }

    /// The number of the level, or 0 where there is none.
    pub open spec fn spec_level_number(&self) -> u8 {
        match self {
            Compression::Uncompressed => 0,
            Compression::ZStd(level) => level.spec_level(),
            Compression::ZLib(level) => level.spec_level(),
            Compression::Deflate(level) => level.spec_level(),
            Compression::GZip(level) => level.spec_level(),
        }
    }

    /// Returns the number that stands for the algorithm on the wire.
    pub fn tag(&self) -> (r: u8)
        ensures
            r == self.spec_tag(),
    {
        match self {
            Compression::Uncompressed => 0,
            Compression::ZStd(_) => 1,
            Compression::ZLib(_) => 2,
            Compression::Deflate(_) => 3,
            Compression::GZip(_) => 4,
        }
    }
}

/// What writing a compression calls for: the algorithm as a variant of eight
/// bits, and then the level, if there is one, as another.
pub open spec fn compression_image(c: Compression, state: State) -> Result<Image, EncodingError> {
    match tag_image(state, c.spec_tag()) {
        Err(e) => Err(e),
        Ok(first) => if c is Uncompressed {
            Ok(first)
        } else {
            match tag_image(first.state, c.spec_level_number()) {
                Err(e) => Err(e),
                Ok(second) => Ok(
                    Image { bytes: first.bytes + second.bytes, state: second.state },
                ),
            }
        },
    }
}

impl Encode for Compression {
    open spec fn image(&self, state: State) -> Result<Image, EncodingError> {
        compression_image(*self, state)
    }

    proof fn lemma_image_keeps_settings(&self, state: State) {
    }

    fn encode<'a, W: Write, U>(&self, encoder: &mut Encoder<'a, W, U>) -> (r: Result<
        (),
        EncodingError,
    >) {
        let ghost state = old(encoder).ctxt.spec_state();
        match write_tag(encoder, self.tag()) {
            Ok(()) => {},
            Err(e) => {
                return Err(e);
            },
        }
        let ghost before = encoder.stream;
        let ghost first = tag_image(state, self.spec_tag())->Ok_0;
        let r = match self {
            Compression::Uncompressed => {
                return Ok(());
            },
            Compression::ZStd(level) => write_tag(encoder, level.level()),
            Compression::ZLib(level) => write_tag(encoder, level.level()),
            Compression::Deflate(level) => write_tag(encoder, level.level()),
            Compression::GZip(level) => write_tag(encoder, level.level()),
        };
        proof {
            if let Ok(second) = tag_image(first.state, self.spec_level_number()) {
                lemma_parts_compose(
                    old(encoder).stream,
                    before,
                    encoder.stream,
                    r,
                    first.bytes,
                    second.bytes,
                );
            }
        }
        r
    }
}

/// The compression with the given algorithm number and level number, if
/// there is one.
pub open spec fn compression_of(tag: u8, level: u8) -> Option<Compression> {
    if tag == 1 && 1 <= level <= 22 {
        Some(Compression::ZStd(choose|l: ZStdLevel| l.spec_level() == level))
    } else if tag == 2 && level <= 9 {
        Some(Compression::ZLib(choose|l: ZLibLevel| l.spec_level() == level))
    } else if tag == 3 && level <= 9 {
        Some(Compression::Deflate(choose|l: DeflateLevel| l.spec_level() == level))
    } else if tag == 4 && 1 <= level <= 9 {
        Some(Compression::GZip(choose|l: GZipLevel| l.spec_level() == level))
    } else {
        None
    }
}

/// What the bytes `s` stand for as a compression: the algorithm as a variant
/// of eight bits, and then the level, if the algorithm has one, as another.
/// A number that stands for no algorithm or no level is an `InvalidVariant`.
pub open spec fn compression_parse(state: State, s: Seq<u8>) -> Result<
    Parsed<Compression>,
    EncodingError,
> {
    match tag_parse(state, s) {
        Err(e) => Err(e),
        Ok(tag) => if tag.value == 0 {
            Ok(Parsed { value: Compression::Uncompressed, len: tag.len })
        } else if tag.value > 4 {
            Err(EncodingError::InvalidVariant)
        } else {
            match tag_parse(state.without_variant(), s.skip(tag.len as int)) {
                Err(e) => Err(e),
                Ok(level) => match compression_of(tag.value, level.value) {
                    Some(c) => Ok(Parsed { value: c, len: tag.len + level.len }),
                    None => Err(EncodingError::InvalidVariant),
                },
            }
        },
    }
}

impl Decode for Compression {
    type Model = Compression;

    open spec fn model(&self) -> Compression {
        *self
    }

    open spec fn parse(state: State, s: Seq<u8>) -> Result<Parsed<Compression>, EncodingError> {
        compression_parse(state, s)
    }

    open spec fn state_after(state: State, s: Seq<u8>) -> State {
        state.without_variant()
    }

    proof fn lemma_parse_keeps_settings(state: State, s: Seq<u8>) {
    }

    fn decode<'a, R: Read, U>(decoder: &mut Encoder<'a, R, U>) -> (r: Result<Self, EncodingError>) {
        let ghost s0 = old(decoder).stream.remaining();
        let ghost state = old(decoder).ctxt.spec_state();
        let tag = match read_tag(decoder) {
            Ok(tag) => tag,
            Err(e) => {
                return Err(e);
            },
        };
        if tag == 0 {
            return Ok(Compression::Uncompressed);
        }
        if tag > 4 {
            return Err(EncodingError::InvalidVariant);
        }
        let ghost head = tag_parse(state, s0)->Ok_0.len;
        let level = match read_tag(decoder) {
            Ok(level) => level,
            Err(e) => {
                return Err(e);
            },
        };
        proof {
            let second = tag_parse(state.without_variant(), s0.skip(head as int))->Ok_0;
            assert(s0.skip(head as int).skip(second.len as int) =~= s0.skip(
                (head + second.len) as int,
            ));
        }
        let found = if tag == 1 {
            match ZStdLevel::from_level(level) {
                Some(l) => Some(Compression::ZStd(l)),
                None => None,
            }
        } else if tag == 2 {
            match ZLibLevel::from_level(level) {
                Some(l) => Some(Compression::ZLib(l)),
                None => None,
            }
        } else if tag == 3 {
            match DeflateLevel::from_level(level) {
                Some(l) => Some(Compression::Deflate(l)),
                None => None,
            }
        } else {
            match GZipLevel::from_level(level) {
                Some(l) => Some(Compression::GZip(l)),
                None => None,
            }
        };
        match found {
            Some(c) => Ok(c),
            None => Err(EncodingError::InvalidVariant),
        }
    }
}

} // verus!
