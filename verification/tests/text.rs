use ende::io::Slice;
use ende::BinSettings;
use ende::BitWidth;
use ende::Context;
use ende::Encoder;
use ende::EncodingError;
use ende::Endianness;
use ende::StrEncoding;
use ende::StringError;

fn context(str_encoding: StrEncoding, endianness: Endianness) -> Context<'static, ()> {
    let mut s = BinSettings::new();
    s.string_repr.str_encoding = str_encoding;
    s.string_repr.endianness = endianness;
    Context::with_settings(s)
}

const ENCODINGS: [StrEncoding; 3] = [StrEncoding::Utf8, StrEncoding::Utf16, StrEncoding::Utf32];

const ORDERS: [Endianness; 2] = [Endianness::LittleEndian, Endianness::BigEndian];

#[test]
fn boundary_chars_round_trip_in_every_encoding() {
    let codes = [
        0x0000u32, 0x007F, 0x0080, 0x07FF, 0x0800, 0xD7FF, 0xE000, 0xFFFF, 0x10000, 0x10FFFF,
    ];
    for enc in ENCODINGS {
        for order in ORDERS {
            for code in codes {
                let c = char::from_u32(code).unwrap();
                let mut encoder = Encoder::new(Vec::new(), context(enc, order));
                encoder.write_char(c).unwrap();
                let (bytes, ctxt) = encoder.finish();
                let mut decoder = Encoder::new(Slice::new(&bytes), ctxt);
                assert_eq!(decoder.read_char().unwrap(), c);
                assert_eq!(decoder.stream.available(), 0);
            }
        }
    }
}

#[test]
fn utf8_bytes_are_those_of_std() {
    for c in ['a', 'é', '€', '𝄞', '\u{10FFFF}'] {
        let mut encoder = Encoder::new(
            Vec::new(),
            context(StrEncoding::Utf8, Endianness::LittleEndian),
        );
        encoder.write_char(c).unwrap();
        let mut buf = [0u8; 4];
        assert_eq!(encoder.stream, c.encode_utf8(&mut buf).as_bytes());
    }
}

#[test]
fn utf16_units_are_those_of_std() {
    for c in ['a', 'é', '€', '𝄞', '\u{10FFFF}'] {
        let mut encoder = Encoder::new(
            Vec::new(),
            context(StrEncoding::Utf16, Endianness::BigEndian),
        );
        encoder.write_char(c).unwrap();
        let mut buf = [0u16; 2];
        let mut expected = Vec::new();
        for unit in c.encode_utf16(&mut buf) {
            expected.extend_from_slice(&unit.to_be_bytes());
        }
        assert_eq!(encoder.stream, expected);
    }
}

#[test]
fn utf32_is_the_code_point() {
    let mut encoder = Encoder::new(
        Vec::new(),
        context(StrEncoding::Utf32, Endianness::LittleEndian),
    );
    encoder.write_char('𝄞').unwrap();
    assert_eq!(encoder.stream, 0x1D11Eu32.to_le_bytes());
}

#[test]
fn hello_with_an_eight_bit_length() {
    let mut s = BinSettings::new();
    s.size_repr.width = BitWidth::Bit8;
    s.size_repr.max_size = 255;
    let mut encoder = Encoder::new(Vec::new(), Context::<()>::with_settings(s));
    encoder.write_str("héllo").unwrap();
    let (bytes, ctxt) = encoder.finish();
    assert_eq!(bytes, vec![0x06u8, 0x68, 0xC3, 0xA9, 0x6C, 0x6C, 0x6F]);
    let mut decoder = Encoder::new(Slice::new(&bytes), ctxt);
    assert_eq!(decoder.read_str().unwrap(), "héllo");
    assert_eq!(decoder.stream.available(), 0);
}

#[test]
fn strings_round_trip_in_every_encoding() {
    for enc in ENCODINGS {
        for order in ORDERS {
            let text = "zero-copy? 𝄞 ÿes, ☃!";
            let mut encoder = Encoder::new(Vec::new(), context(enc, order));
            encoder.write_str(text).unwrap();
            encoder.write_u8(9).unwrap();
            let (bytes, ctxt) = encoder.finish();
            let mut decoder = Encoder::new(Slice::new(&bytes), ctxt);
            assert_eq!(decoder.read_str().unwrap(), text);
            assert_eq!(decoder.read_u8().unwrap(), 9);
        }
    }
}

#[test]
fn the_empty_string_is_just_its_length() {
    let mut encoder = Encoder::new(Vec::new(), Context::<()>::new());
    encoder.write_str("").unwrap();
    assert_eq!(encoder.stream, vec![0u8; 8]);
    let (bytes, ctxt) = encoder.finish();
    let mut decoder = Encoder::new(Slice::new(&bytes), ctxt);
    assert_eq!(decoder.read_str().unwrap(), "");
}

#[test]
fn a_char_cut_by_the_length_is_an_unexpected_end() {
    // length 2, but the char that starts at the second byte needs two bytes
    let bytes = [2u8, 0, 0, 0, 0, 0, 0, 0, 0x61, 0xC3, 0xA9];
    let mut decoder = Encoder::new(Slice::new(&bytes), Context::<()>::new());
    assert!(matches!(decoder.read_str(), Err(EncodingError::UnexpectedEnd)));
}

#[test]
fn a_string_longer_than_the_stream_is_an_unexpected_end() {
    let bytes = [5u8, 0, 0, 0, 0, 0, 0, 0, 0x61, 0x62];
    let mut decoder = Encoder::new(Slice::new(&bytes), Context::<()>::new());
    assert!(matches!(decoder.read_str(), Err(EncodingError::UnexpectedEnd)));
}

#[test]
fn a_continuation_byte_cannot_lead() {
    let bytes = [0x80u8];
    let mut decoder = Encoder::new(Slice::new(&bytes), Context::<()>::new());
    assert!(matches!(
        decoder.read_char(),
        Err(EncodingError::StringError(StringError::InvalidUtf8))
    ));
}

#[test]
fn five_leading_ones_cannot_lead() {
    let bytes = [0xF8u8, 0x80, 0x80, 0x80, 0x80];
    let mut decoder = Encoder::new(Slice::new(&bytes), Context::<()>::new());
    assert!(matches!(
        decoder.read_char(),
        Err(EncodingError::StringError(StringError::InvalidUtf8))
    ));
}

#[test]
fn a_missing_continuation_byte_is_invalid() {
    let bytes = [0xC3u8, 0x41];
    let mut decoder = Encoder::new(Slice::new(&bytes), Context::<()>::new());
    assert!(matches!(
        decoder.read_char(),
        Err(EncodingError::StringError(StringError::InvalidUtf8))
    ));
}

#[test]
fn a_surrogate_in_utf8_is_invalid() {
    let bytes = [0xEDu8, 0xA0, 0x80];
    let mut decoder = Encoder::new(Slice::new(&bytes), Context::<()>::new());
    assert!(matches!(
        decoder.read_char(),
        Err(EncodingError::StringError(StringError::InvalidUtf8))
    ));
}

#[test]
fn a_lone_low_surrogate_is_invalid_utf16() {
    let bytes = 0xDC00u16.to_le_bytes();
    let mut decoder = Encoder::new(
        Slice::new(&bytes),
        context(StrEncoding::Utf16, Endianness::LittleEndian),
    );
    assert!(matches!(
        decoder.read_char(),
        Err(EncodingError::StringError(StringError::InvalidUtf16))
    ));
}

#[test]
fn a_high_surrogate_without_a_low_one_is_invalid_utf16() {
    let mut bytes = Vec::new();
    bytes.extend_from_slice(&0xD800u16.to_le_bytes());
    bytes.extend_from_slice(&0x0041u16.to_le_bytes());
    let mut decoder = Encoder::new(
        Slice::new(&bytes),
        context(StrEncoding::Utf16, Endianness::LittleEndian),
    );
    assert!(matches!(
        decoder.read_char(),
        Err(EncodingError::StringError(StringError::InvalidUtf16))
    ));
}

#[test]
fn a_surrogate_is_invalid_utf32() {
    let bytes = 0xD800u32.to_be_bytes();
    let mut decoder = Encoder::new(
        Slice::new(&bytes),
        context(StrEncoding::Utf32, Endianness::BigEndian),
    );
    assert!(matches!(
        decoder.read_char(),
        Err(EncodingError::StringError(StringError::InvalidUtf32))
    ));
}
