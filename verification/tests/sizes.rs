use ende::io::Slice;
use ende::BinSettings;
use ende::BitWidth;
use ende::Context;
use ende::Encoder;
use ende::EncodingError;
use ende::Endianness;
use ende::NumEncoding;
use ende::Opaque;
use ende::OpaqueError;

fn sized(width: BitWidth, max_size: usize, num_encoding: NumEncoding) -> Context<'static, ()> {
    let mut s = BinSettings::new();
    s.size_repr.width = width;
    s.size_repr.max_size = max_size;
    s.size_repr.num_encoding = num_encoding;
    s.size_repr.endianness = Endianness::BigEndian;
    Context::with_settings(s)
}

#[test]
fn a_size_above_the_maximum_is_not_written() {
    let mut encoder = Encoder::new(Vec::new(), sized(BitWidth::Bit32, 100, NumEncoding::Fixed));
    assert!(matches!(
        encoder.write_usize(101),
        Err(EncodingError::MaxSizeExceeded { max: 100, requested: 101 })
    ));
    assert!(encoder.stream.is_empty());
    encoder.write_usize(100).unwrap();
    assert_eq!(encoder.stream, vec![0u8, 0, 0, 100]);
}

#[test]
fn a_size_above_the_maximum_is_not_read() {
    let bytes = [0u8, 0, 0, 101];
    let mut decoder = Encoder::new(
        Slice::new(&bytes),
        sized(BitWidth::Bit32, 100, NumEncoding::Fixed),
    );
    assert!(matches!(
        decoder.read_usize(),
        Err(EncodingError::MaxSizeExceeded { max: 100, requested: 101 })
    ));
}

#[test]
fn a_size_too_wide_for_its_width_is_a_conversion_error() {
    let mut encoder = Encoder::new(
        Vec::new(),
        sized(BitWidth::Bit8, usize::MAX, NumEncoding::Fixed),
    );
    match encoder.write_usize(256) {
        Err(EncodingError::OpaqueConversion(OpaqueError { value, signed, width })) => {
            assert_eq!(value, Opaque::from_usize(256));
            assert!(!signed);
            assert_eq!(width, BitWidth::Bit8);
        }
        other => panic!("unexpected: {:?}", other),
    }
    encoder.write_usize(255).unwrap();
    assert_eq!(encoder.stream, vec![255u8]);
}

#[test]
fn sizes_round_trip_at_every_width() {
    for width in [
        BitWidth::Bit8,
        BitWidth::Bit16,
        BitWidth::Bit32,
        BitWidth::Bit64,
        BitWidth::Bit128,
    ] {
        for enc in [NumEncoding::Fixed, NumEncoding::Leb128] {
            let mut encoder = Encoder::new(Vec::new(), sized(width, usize::MAX, enc));
            encoder.write_usize(200).unwrap();
            encoder.write_isize(-100).unwrap();
            if enc == NumEncoding::Fixed {
                assert_eq!(encoder.stream.len(), 2 * width.bytes());
            }
            let (bytes, ctxt) = encoder.finish();
            let mut decoder = Encoder::new(Slice::new(&bytes), ctxt);
            assert_eq!(decoder.read_usize().unwrap(), 200);
            assert_eq!(decoder.read_isize().unwrap(), -100);
        }
    }
}

#[test]
fn a_read_size_that_does_not_fit_usize_is_a_conversion_error() {
    let bytes = [0xFFu8; 16];
    let mut decoder = Encoder::new(
        Slice::new(&bytes),
        sized(BitWidth::Bit128, usize::MAX, NumEncoding::Fixed),
    );
    assert!(matches!(
        decoder.read_usize(),
        Err(EncodingError::OpaqueConversion(_))
    ));
}

#[test]
fn variants_round_trip_and_keep_their_sign() {
    let mut s = BinSettings::new();
    s.variant_repr.width = BitWidth::Bit8;
    let mut encoder = Encoder::new(Vec::new(), Context::<()>::with_settings(s));
    encoder.write_uvariant(200u64).unwrap();
    encoder.write_ivariant(-3i32).unwrap();
    assert_eq!(encoder.stream, vec![200u8, 0xFD]);
    let (bytes, ctxt) = encoder.finish();
    let mut decoder = Encoder::new(Slice::new(&bytes), ctxt);
    let u: u16 = decoder.read_uvariant().unwrap();
    let i: i8 = decoder.read_ivariant().unwrap();
    assert_eq!(u, 200);
    assert_eq!(i, -3);
}

#[test]
fn a_variant_too_wide_for_its_width_is_a_conversion_error() {
    let mut s = BinSettings::new();
    s.variant_repr.width = BitWidth::Bit8;
    let mut encoder = Encoder::new(Vec::new(), Context::<()>::with_settings(s));
    assert!(matches!(
        encoder.write_uvariant(256u16),
        Err(EncodingError::OpaqueConversion(_))
    ));
    assert!(matches!(
        encoder.write_ivariant(-129i16),
        Err(EncodingError::OpaqueConversion(_))
    ));
    assert!(encoder.stream.is_empty());
}

#[test]
fn a_read_variant_that_does_not_fit_its_type_is_a_conversion_error() {
    let bytes = [0u8, 1, 0, 0];
    let mut decoder = Encoder::new(Slice::new(&bytes), Context::<()>::new());
    let r: Result<u8, _> = decoder.read_uvariant();
    match r {
        Err(EncodingError::OpaqueConversion(OpaqueError { value, signed, width })) => {
            assert!(value.same_value(&Opaque::from_u32(256)));
            assert!(!signed);
            assert_eq!(width, BitWidth::Bit8);
        }
        other => panic!("unexpected: {:?}", other),
    }
}

#[test]
fn opaque_narrows_with_a_range_check() {
    assert_eq!(Opaque::from_u64(255).try_into_u8(), Ok(255));
    assert!(Opaque::from_u64(256).try_into_u8().is_err());
    assert_eq!(Opaque::from_i8(-1).try_into_i128(), Ok(-1));
    assert!(Opaque::from_i8(-1).try_into_u128().is_err());
    assert_eq!(Opaque::from_u128(u128::MAX).try_into_u128(), Ok(u128::MAX));
    assert!(Opaque::from_u128(u128::MAX).try_into_i128().is_err());
    assert_eq!(Opaque::from_i128(i128::MIN).try_into_i128(), Ok(i128::MIN));
    assert_eq!(Opaque::from_i32(-32768).try_into_i16(), Ok(i16::MIN));
    assert!(Opaque::from_i32(-32769).try_into_i16().is_err());
    assert_eq!(Opaque::from_u16(7).try_into_usize(), Ok(7));
    assert_eq!(Opaque::from_isize(-7).try_into_isize(), Ok(-7));
    assert_eq!(Opaque::from_u32(u32::MAX).try_into_i64(), Ok(u32::MAX as i64));
    assert!(Opaque::from_u32(u32::MAX).try_into_i32().is_err());
    assert_eq!(Opaque::from_u8(9).try_into_u16(), Ok(9));
    assert_eq!(Opaque::from_u8(9).try_into_u32(), Ok(9));
    assert_eq!(Opaque::from_u8(9).try_into_u64(), Ok(9));
    assert_eq!(Opaque::from_u8(9).try_into_i8(), Ok(9));
    assert_eq!(
        Opaque::from_i64(-1).try_into_u64(),
        Err(OpaqueError { value: Opaque::from_i64(-1), signed: false, width: BitWidth::Bit64 })
    );
}

#[test]
fn opaque_keeps_sign_and_width() {
    let o = Opaque::from_i16(-2);
    assert!(o.is_signed());
    assert_eq!(o.width(), BitWidth::Bit16);
    let u = Opaque::from_usize(2);
    assert!(!u.is_signed());
    assert_eq!(u.width(), BitWidth::native());
    assert!(Opaque::from_u8(2).same_value(&Opaque::from_i64(2)));
    assert!(!Opaque::from_u8(2).same_value(&Opaque::from_i64(-2)));
    assert!(!Opaque::from_u128(u128::MAX).same_value(&Opaque::from_i128(-1)));
}
