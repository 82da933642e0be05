use ende::io::Slice;
use ende::BinSettings;
use ende::Context;
use ende::Encoder;
use ende::EncodingError;
use ende::Endianness;
use ende::NumEncoding;

const ENCODINGS: [NumEncoding; 4] = [
    NumEncoding::Fixed,
    NumEncoding::Leb128,
    NumEncoding::ProtobufWasteful,
    NumEncoding::ProtobufZigzag,
];

const ORDERS: [Endianness; 2] = [Endianness::LittleEndian, Endianness::BigEndian];

fn context(num_encoding: NumEncoding, endianness: Endianness) -> Context<'static, ()> {
    let mut s = BinSettings::new();
    s.num_repr.num_encoding = num_encoding;
    s.num_repr.endianness = endianness;
    Context::with_settings(s)
}

#[test]
fn i128_boundaries_round_trip_in_every_encoding() {
    for enc in ENCODINGS {
        for order in ORDERS {
            for value in [i128::MIN, i128::MAX, 0, -1, 1, 63, 64, -64, -65] {
                let mut encoder = Encoder::new(Vec::new(), context(enc, order));
                encoder.write_i128(value).unwrap();
                let (bytes, ctxt) = encoder.finish();
                let mut decoder = Encoder::new(Slice::new(&bytes), ctxt);
                assert_eq!(decoder.read_i128().unwrap(), value);
                assert_eq!(decoder.stream.available(), 0);
            }
        }
    }
}

#[test]
fn u128_boundaries_round_trip_in_every_encoding() {
    for enc in ENCODINGS {
        for order in ORDERS {
            for value in [u128::MAX, 0, 1, 127, 128, u64::MAX as u128] {
                let mut encoder = Encoder::new(Vec::new(), context(enc, order));
                encoder.write_u128(value).unwrap();
                let (bytes, ctxt) = encoder.finish();
                let mut decoder = Encoder::new(Slice::new(&bytes), ctxt);
                assert_eq!(decoder.read_u128().unwrap(), value);
                assert_eq!(decoder.stream.available(), 0);
            }
        }
    }
}

#[test]
fn leb128_of_i128_min_takes_nineteen_bytes() {
    let mut encoder = Encoder::new(
        Vec::new(),
        context(NumEncoding::Leb128, Endianness::LittleEndian),
    );
    encoder.write_i128(i128::MIN).unwrap();
    assert_eq!(encoder.stream.len(), 19);
}

#[test]
fn every_small_type_round_trips_in_every_encoding() {
    for enc in ENCODINGS {
        for order in ORDERS {
            let mut encoder = Encoder::new(Vec::new(), context(enc, order));
            encoder.write_u8(200).unwrap();
            encoder.write_i8(-100).unwrap();
            encoder.write_u16(60000).unwrap();
            encoder.write_i16(i16::MIN).unwrap();
            encoder.write_u32(u32::MAX).unwrap();
            encoder.write_i32(-123456789).unwrap();
            encoder.write_u64(u64::MAX).unwrap();
            encoder.write_i64(i64::MIN).unwrap();
            let (bytes, ctxt) = encoder.finish();
            let mut decoder = Encoder::new(Slice::new(&bytes), ctxt);
            assert_eq!(decoder.read_u8().unwrap(), 200);
            assert_eq!(decoder.read_i8().unwrap(), -100);
            assert_eq!(decoder.read_u16().unwrap(), 60000);
            assert_eq!(decoder.read_i16().unwrap(), i16::MIN);
            assert_eq!(decoder.read_u32().unwrap(), u32::MAX);
            assert_eq!(decoder.read_i32().unwrap(), -123456789);
            assert_eq!(decoder.read_u64().unwrap(), u64::MAX);
            assert_eq!(decoder.read_i64().unwrap(), i64::MIN);
            assert_eq!(decoder.stream.available(), 0);
        }
    }
}

#[test]
fn twenty_continuation_bytes_are_a_varint_error() {
    let bytes = [0x80u8; 20];
    let mut decoder = Encoder::new(
        Slice::new(&bytes),
        context(NumEncoding::Leb128, Endianness::LittleEndian),
    );
    assert!(matches!(decoder.read_u128(), Err(EncodingError::VarIntError)));
}

#[test]
fn varint_that_ends_early_is_an_unexpected_end() {
    let bytes = [0x80u8, 0x80];
    let mut decoder = Encoder::new(
        Slice::new(&bytes),
        context(NumEncoding::Leb128, Endianness::LittleEndian),
    );
    assert!(matches!(decoder.read_u32(), Err(EncodingError::UnexpectedEnd)));
}

#[test]
fn u8_varint_stops_after_two_bytes() {
    let bytes = [0x80u8, 0x80, 0x00];
    let mut decoder = Encoder::new(
        Slice::new(&bytes),
        context(NumEncoding::Leb128, Endianness::LittleEndian),
    );
    assert!(matches!(decoder.read_u8(), Err(EncodingError::VarIntError)));
}

#[test]
fn u8_varint_cuts_high_bits() {
    let bytes = [0xFFu8, 0x7F];
    let mut decoder = Encoder::new(
        Slice::new(&bytes),
        context(NumEncoding::Leb128, Endianness::LittleEndian),
    );
    assert_eq!(decoder.read_u8().unwrap(), 0xFF);
}

#[test]
fn fixed_bytes_in_both_orders() {
    let mut le = Encoder::new(Vec::new(), context(NumEncoding::Fixed, Endianness::LittleEndian));
    le.write_u16(0x0102).unwrap();
    le.write_i16(-2).unwrap();
    assert_eq!(le.stream, vec![0x02u8, 0x01, 0xFE, 0xFF]);
    let mut be = Encoder::new(Vec::new(), context(NumEncoding::Fixed, Endianness::BigEndian));
    be.write_u16(0x0102).unwrap();
    be.write_i16(-2).unwrap();
    assert_eq!(be.stream, vec![0x01u8, 0x02, 0xFF, 0xFE]);
}

#[test]
fn wasteful_negative_costs_the_full_width() {
    let mut encoder = Encoder::new(
        Vec::new(),
        context(NumEncoding::ProtobufWasteful, Endianness::LittleEndian),
    );
    encoder.write_i32(-1).unwrap();
    assert_eq!(encoder.stream, vec![0xFFu8, 0xFF, 0xFF, 0xFF, 0x0F]);
}

#[test]
fn zigzag_codes() {
    let mut encoder = Encoder::new(
        Vec::new(),
        context(NumEncoding::ProtobufZigzag, Endianness::LittleEndian),
    );
    encoder.write_i32(0).unwrap();
    encoder.write_i32(-1).unwrap();
    encoder.write_i32(1).unwrap();
    encoder.write_i32(-2).unwrap();
    encoder.write_i32(i32::MAX).unwrap();
    encoder.write_i32(i32::MIN).unwrap();
    assert_eq!(
        encoder.stream,
        vec![0u8, 1, 2, 3, 0xFE, 0xFF, 0xFF, 0xFF, 0x0F, 0xFF, 0xFF, 0xFF, 0xFF, 0x0F]
    );
}

#[test]
fn encoding_is_deterministic() {
    for enc in ENCODINGS {
        let mut a = Encoder::new(Vec::new(), context(enc, Endianness::BigEndian));
        let mut b = Encoder::new(Vec::new(), context(enc, Endianness::BigEndian));
        a.write_i64(-987654321).unwrap();
        b.write_i64(-987654321).unwrap();
        assert_eq!(a.stream, b.stream);
    }
}

#[test]
fn settings_survive_reads_and_writes() {
    for enc in ENCODINGS {
        let ctxt = context(enc, Endianness::BigEndian);
        let before = ctxt.settings;
        let mut encoder = Encoder::new(Vec::new(), ctxt);
        encoder.write_u64(77).unwrap();
        assert_eq!(encoder.ctxt.settings, before);
        let (bytes, ctxt) = encoder.finish();
        let mut decoder = Encoder::new(Slice::new(&bytes), ctxt);
        decoder.read_u64().unwrap();
        assert_eq!(decoder.ctxt.settings, before);
    }
}

#[test]
fn float_bits_ignore_the_number_encoding() {
    let mut encoder = Encoder::new(
        Vec::new(),
        context(NumEncoding::Leb128, Endianness::BigEndian),
    );
    encoder.write_f32_bits(1.5f32.to_bits()).unwrap();
    encoder.write_f64_bits((-2.25f64).to_bits()).unwrap();
    let (bytes, ctxt) = encoder.finish();
    assert_eq!(bytes.len(), 12);
    assert_eq!(bytes[..4], 1.5f32.to_be_bytes());
    let mut decoder = Encoder::new(Slice::new(&bytes), ctxt);
    assert_eq!(f32::from_bits(decoder.read_f32_bits().unwrap()), 1.5);
    assert_eq!(f64::from_bits(decoder.read_f64_bits().unwrap()), -2.25);
}
