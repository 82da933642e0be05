use ende::decode_keeping;
use ende::encode_keeping;
use ende::io::Slice;
use ende::io::SliceMut;
use ende::BinSettings;
use ende::Context;
use ende::Encoder;
use ende::EncodingError;
use ende::Endianness;
use ende::NumEncoding;

fn settings(num_encoding: NumEncoding, endianness: Endianness) -> BinSettings {
    let mut s = BinSettings::new();
    s.num_repr.num_encoding = num_encoding;
    s.num_repr.endianness = endianness;
    s
}

#[test]
fn test() {
    let mut encoder = Encoder::new(
        Vec::new(),
        Context::<()>::with_settings(settings(NumEncoding::Leb128, Endianness::LittleEndian)),
    );
    encoder.write_i128(i128::MIN).unwrap();
    let (bytes, ctxt) = encoder.finish();
    assert_eq!(bytes.len(), 19);
    let mut decoder = Encoder::new(Slice::new(&bytes), ctxt);
    assert_eq!(decoder.read_i128().unwrap(), i128::MIN);
}

#[test]
fn u32_big_endian_fixed() {
    let mut encoder = Encoder::new(
        Vec::new(),
        Context::<()>::with_settings(settings(NumEncoding::Fixed, Endianness::BigEndian)),
    );
    encoder.write_u32(0x01020304).unwrap();
    let (bytes, ctxt) = encoder.finish();
    assert_eq!(bytes, vec![1u8, 2, 3, 4]);
    let mut decoder = Encoder::new(Slice::new(&bytes), ctxt);
    assert_eq!(decoder.read_u32().unwrap(), 0x01020304);
}

#[test]
fn u64_leb128() {
    let mut encoder = Encoder::new(
        Vec::new(),
        Context::<()>::with_settings(settings(NumEncoding::Leb128, Endianness::LittleEndian)),
    );
    encoder.write_u64(300).unwrap();
    let (bytes, ctxt) = encoder.finish();
    assert_eq!(bytes, vec![0xACu8, 0x02]);
    let mut decoder = Encoder::new(Slice::new(&bytes), ctxt);
    assert_eq!(decoder.read_u64().unwrap(), 300);
}

#[test]
fn i32_minus_one_leb128() {
    let mut encoder = Encoder::new(
        Vec::new(),
        Context::<()>::with_settings(settings(NumEncoding::Leb128, Endianness::LittleEndian)),
    );
    encoder.write_i32(-1).unwrap();
    let (bytes, ctxt) = encoder.finish();
    assert_eq!(bytes, vec![0x7Fu8]);
    let mut decoder = Encoder::new(Slice::new(&bytes), ctxt);
    assert_eq!(decoder.read_i32().unwrap(), -1);
}

#[test]
fn i32_minus_one_zigzag() {
    let mut encoder = Encoder::new(
        Vec::new(),
        Context::<()>::with_settings(settings(NumEncoding::ProtobufZigzag, Endianness::LittleEndian)),
    );
    encoder.write_i32(-1).unwrap();
    let (bytes, ctxt) = encoder.finish();
    assert_eq!(bytes, vec![0x01u8]);
    let mut decoder = Encoder::new(Slice::new(&bytes), ctxt);
    assert_eq!(decoder.read_i32().unwrap(), -1);
}

#[test]
fn entry_points_hand_back_the_exact_bytes() {
    let big = Context::<()>::with_settings(settings(NumEncoding::Fixed, Endianness::BigEndian));
    let (r, bytes) = encode_keeping(Vec::new(), big, 0x01020304u32);
    assert!(r.is_ok());
    assert_eq!(bytes, vec![1u8, 2, 3, 4]);

    let leb = Context::<()>::with_settings(settings(NumEncoding::Leb128, Endianness::BigEndian));
    let (r, bytes) = encode_keeping(vec![9u8], leb, 300u64);
    assert!(r.is_ok());
    assert_eq!(bytes, vec![9u8, 0xAC, 0x02]);

    let leb = Context::<()>::with_settings(settings(NumEncoding::Leb128, Endianness::LittleEndian));
    let (r, bytes) = encode_keeping(Vec::new(), leb, -1i32);
    assert!(r.is_ok());
    assert_eq!(bytes, vec![0x7Fu8]);

    let leb = Context::<()>::with_settings(settings(NumEncoding::Leb128, Endianness::LittleEndian));
    let (r, bytes) = encode_keeping(Vec::new(), leb, i128::MIN);
    assert!(r.is_ok());
    let mut expected = vec![0x80u8; 18];
    expected.push(0x7E);
    assert_eq!(bytes, expected);

    let leb = Context::<()>::with_settings(settings(NumEncoding::Leb128, Endianness::LittleEndian));
    let (r, rest) = decode_keeping::<_, (), i128>(Slice::new(&bytes), leb);
    assert_eq!(r.unwrap(), i128::MIN);
    assert_eq!(rest.available(), 0);
}

#[test]
fn entry_points_hand_back_the_stream_after_a_failure() {
    let mut room = [0u8; 3];
    let (r, writer) = encode_keeping(SliceMut::new(&mut room), Context::<()>::new(), 7u32);
    assert!(matches!(r, Err(EncodingError::UnexpectedEnd)));
    assert_eq!(writer.len_written(), 0);

    let bytes = [1u8, 2, 3, 4, 5];
    let (r, rest) = decode_keeping::<_, (), u32>(Slice::new(&bytes), Context::<()>::new());
    assert_eq!(r.unwrap(), 0x04030201);
    assert_eq!(rest.available(), 1);
    let (r, _) = decode_keeping::<_, (), u64>(Slice::new(&bytes), Context::<()>::new());
    assert!(matches!(r, Err(EncodingError::UnexpectedEnd)));
}

#[test]
fn two_encodes_of_one_value_agree() {
    let value = vec![Some(5u16), None, Some(0xFFFF)];
    let (r1, b1) = encode_keeping(Vec::new(), Context::<()>::new(), value.clone());
    let (r2, b2) = encode_keeping(Vec::new(), Context::<()>::new(), value);
    assert!(r1.is_ok() && r2.is_ok());
    assert_eq!(b1, b2);

    let mut s = BinSettings::new();
    s.size_repr.max_size = 1;
    let (r1, _) = encode_keeping(Vec::new(), Context::<()>::with_settings(s), vec![1u8, 2]);
    let (r2, _) = encode_keeping(Vec::new(), Context::<()>::with_settings(s), vec![1u8, 2]);
    assert!(matches!(r1, Err(EncodingError::MaxSizeExceeded { max: 1, requested: 2 })));
    assert!(matches!(r2, Err(EncodingError::MaxSizeExceeded { max: 1, requested: 2 })));
}
