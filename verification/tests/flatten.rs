use ende::io::Slice;
use ende::BinSettings;
use ende::Context;
use ende::Decode;
use ende::Encode;
use ende::Encoder;
use ende::EncodingError;
use ende::FlattenError;
use ende::NumEncoding;
use ende::Opaque;

#[test]
fn an_armed_size_is_written_as_nothing() {
    let mut ctxt = Context::<()>::new();
    ctxt.size_flatten = Some(3);
    let mut encoder = Encoder::new(Vec::new(), ctxt);
    encoder.write_usize(3).unwrap();
    assert!(encoder.stream.is_empty());
    assert_eq!(encoder.ctxt.size_flatten, None);
    encoder.write_usize(3).unwrap();
    assert_eq!(encoder.stream.len(), 8);
}

#[test]
fn an_armed_size_is_read_from_nothing() {
    let bytes = [9u8; 4];
    let mut ctxt = Context::<()>::new();
    ctxt.size_flatten = Some(77);
    let mut decoder = Encoder::new(Slice::new(&bytes), ctxt);
    assert_eq!(decoder.read_usize().unwrap(), 77);
    assert_eq!(decoder.stream.available(), 4);
    assert_eq!(decoder.ctxt.size_flatten, None);
}

#[test]
fn a_size_that_disagrees_is_a_length_mismatch() {
    let mut ctxt = Context::<()>::new();
    ctxt.size_flatten = Some(3);
    let mut encoder = Encoder::new(Vec::new(), ctxt);
    let r = encoder.write_usize(4);
    assert!(matches!(
        r,
        Err(EncodingError::FlattenError(FlattenError::LenMismatch { expected: 3, got: 4 }))
    ));
    assert!(encoder.stream.is_empty());
    assert_eq!(encoder.ctxt.size_flatten, Some(3));
}

#[test]
fn an_armed_bool_is_written_as_nothing_and_read_from_nothing() {
    let mut ctxt = Context::<()>::new();
    ctxt.bool_flatten = Some(true);
    let mut encoder = Encoder::new(Vec::new(), ctxt);
    encoder.write_bool(true).unwrap();
    assert!(encoder.stream.is_empty());
    assert_eq!(encoder.ctxt.bool_flatten, None);

    let bytes = [0u8];
    let mut ctxt = Context::<()>::new();
    ctxt.bool_flatten = Some(true);
    let mut decoder = Encoder::new(Slice::new(&bytes), ctxt);
    assert_eq!(decoder.read_bool().unwrap(), true);
    assert_eq!(decoder.stream.available(), 1);
    assert_eq!(decoder.ctxt.bool_flatten, None);
    assert_eq!(decoder.read_bool().unwrap(), false);
}

#[test]
fn a_bool_that_disagrees_is_a_bool_mismatch() {
    let mut ctxt = Context::<()>::new();
    ctxt.bool_flatten = Some(true);
    let mut encoder = Encoder::new(Vec::new(), ctxt);
    assert!(matches!(
        encoder.write_bool(false),
        Err(EncodingError::FlattenError(FlattenError::BoolMismatch {
            expected: true,
            got: false
        }))
    ));
    assert_eq!(encoder.ctxt.bool_flatten, Some(true));
}

#[test]
fn an_armed_variant_is_written_as_nothing_and_read_from_nothing() {
    let mut ctxt = Context::<()>::new();
    ctxt.variant_flatten = Some(Opaque::from_u8(5));
    let mut encoder = Encoder::new(Vec::new(), ctxt);
    encoder.write_uvariant(5u32).unwrap();
    assert!(encoder.stream.is_empty());
    assert_eq!(encoder.ctxt.variant_flatten, None);

    let bytes = [1u8, 2, 3, 4];
    let mut ctxt = Context::<()>::new();
    ctxt.variant_flatten = Some(Opaque::from_i16(-5));
    let mut decoder = Encoder::new(Slice::new(&bytes), ctxt);
    let v: i64 = decoder.read_ivariant().unwrap();
    assert_eq!(v, -5);
    assert_eq!(decoder.stream.available(), 4);
    assert_eq!(decoder.ctxt.variant_flatten, None);
}

#[test]
fn a_variant_that_disagrees_is_a_variant_mismatch() {
    let mut ctxt = Context::<()>::new();
    ctxt.variant_flatten = Some(Opaque::from_u8(5));
    let mut encoder = Encoder::new(Vec::new(), ctxt);
    match encoder.write_uvariant(6u16) {
        Err(EncodingError::FlattenError(FlattenError::VariantMismatch { expected, got })) => {
            assert_eq!(expected, Opaque::from_u8(5));
            assert_eq!(got, Opaque::from_u16(6));
        }
        other => panic!("unexpected: {:?}", other),
    }
    assert_eq!(encoder.ctxt.variant_flatten, Some(Opaque::from_u8(5)));
}

#[test]
fn three_bytes_with_their_length_known() {
    let mut ctxt = Context::<()>::new();
    ctxt.size_flatten = Some(3);
    let mut encoder = Encoder::new(Vec::new(), ctxt);
    vec![1u8, 2, 3].encode(&mut encoder).unwrap();
    assert_eq!(encoder.stream, vec![1u8, 2, 3]);
    let (bytes, _) = encoder.finish();

    let mut ctxt = Context::<()>::new();
    ctxt.size_flatten = Some(3);
    let mut decoder = Encoder::new(Slice::new(&bytes), ctxt);
    let back: Vec<u8> = Vec::decode(&mut decoder).unwrap();
    assert_eq!(back, vec![1u8, 2, 3]);
}

#[test]
fn a_flattened_string_has_no_length_prefix() {
    let mut ctxt = Context::<()>::new();
    ctxt.size_flatten = Some(2);
    let mut encoder = Encoder::new(Vec::new(), ctxt);
    encoder.write_str("hi").unwrap();
    assert_eq!(encoder.stream, b"hi");
    let (bytes, _) = encoder.finish();
    let mut ctxt = Context::<()>::new();
    ctxt.size_flatten = Some(2);
    let mut decoder = Encoder::new(Slice::new(&bytes), ctxt);
    assert_eq!(decoder.read_str().unwrap(), "hi");
}

#[test]
fn the_channel_serves_only_the_next_of_its_kind() {
    let mut s = BinSettings::new();
    s.size_repr.num_encoding = NumEncoding::Leb128;
    let mut ctxt = Context::<()>::with_settings(s);
    ctxt.size_flatten = Some(2);
    let mut encoder = Encoder::new(Vec::new(), ctxt);
    vec![String::from("ab"), String::from("c")].encode(&mut encoder).unwrap();
    // no outer length; each string has its own
    assert_eq!(encoder.stream, vec![2u8, b'a', b'b', 1, b'c']);
}
