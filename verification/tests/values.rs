use ende::containers::decode_cstring;
use ende::containers::encode_cstr;
use ende::decode_with;
use ende::encode_with;
use ende::io::Slice;
use ende::io::SliceMut;
use ende::BinSettings;
use ende::BitWidth;
use ende::Context;
use ende::Decode;
use ende::Encode;
use ende::Encoder;
use ende::EncodingError;
use ende::Endianness;
use ende::ErrorKind;
use ende::FlattenError;
use ende::BorrowError;
use ende::NumEncoding;
use ende::NumRepr;
use ende::SeekDecode;
use ende::SizeRepr;
use ende::StrEncoding;
use ende::StringError;
use ende::StringRepr;
use ende::VariantRepr;

fn round_trip<V: Encode + Decode + PartialEq + Clone + std::fmt::Debug>(value: V, ctxt: Context<()>) {
    let mut encoder = Encoder::new(Vec::new(), ctxt);
    encoder.encode_value(value.clone()).unwrap();
    let (bytes, ctxt) = encoder.finish();
    let mut decoder = Encoder::new(Slice::new(&bytes), ctxt);
    let back: V = decoder.decode_value().unwrap();
    assert_eq!(back, value);
    assert_eq!(decoder.stream.available(), 0);
}

#[test]
fn values_of_every_kind_round_trip() {
    let mut s = BinSettings::new();
    s.num_repr.num_encoding = NumEncoding::ProtobufZigzag;
    s.size_repr.num_encoding = NumEncoding::Leb128;
    s.string_repr.str_encoding = StrEncoding::Utf16;
    s.string_repr.endianness = Endianness::BigEndian;
    for ctxt in [Context::<()>::new(), Context::<()>::with_settings(s)] {
        round_trip(0xABu8, ctxt);
        round_trip(-5i8, ctxt);
        round_trip(0xABCDu16, ctxt);
        round_trip(-1234i16, ctxt);
        round_trip(0xDEADBEEFu32, ctxt);
        round_trip(i32::MIN, ctxt);
        round_trip(u64::MAX, ctxt);
        round_trip(i64::MIN, ctxt);
        round_trip(u128::MAX, ctxt);
        round_trip(i128::MIN, ctxt);
        round_trip(123456usize, ctxt);
        round_trip(-123456isize, ctxt);
        round_trip(true, ctxt);
        round_trip(false, ctxt);
        round_trip('𝄞', ctxt);
        round_trip((), ctxt);
        round_trip(String::from("grüße"), ctxt);
        round_trip(vec![1u16, 2, 3], ctxt);
        round_trip(Vec::<u64>::new(), ctxt);
        round_trip(vec![String::from("a"), String::new(), String::from("ccc")], ctxt);
        round_trip(Some(7u32), ctxt);
        round_trip(None::<u32>, ctxt);
        round_trip(vec![Some(vec![true, false]), None], ctxt);
    }
}

#[test]
fn entry_points() {
    let mut out: Vec<u8> = Vec::new();
    encode_with(&mut out, Context::<()>::new(), vec![1u8, 2]).unwrap();
    assert_eq!(out, vec![2u8, 0, 0, 0, 0, 0, 0, 0, 1, 2]);
    let back: Vec<u8> = decode_with(Slice::new(&out), Context::<()>::new()).unwrap();
    assert_eq!(back, vec![1u8, 2]);
    let short: Result<Vec<u8>, _> = decode_with(Slice::new(&out[..9]), Context::<()>::new());
    assert!(matches!(short, Err(EncodingError::UnexpectedEnd)));

    let mut small = [0u8; 9];
    let r = encode_with(SliceMut::new(&mut small), Context::<()>::new(), vec![1u8, 2]);
    assert!(matches!(r, Err(EncodingError::UnexpectedEnd)));
}

#[test]
fn a_str_is_written_like_a_string() {
    let mut a = Encoder::new(Vec::new(), Context::<()>::new());
    "text".encode(&mut a).unwrap();
    let mut b = Encoder::new(Vec::new(), Context::<()>::new());
    String::from("text").encode(&mut b).unwrap();
    assert_eq!(a.stream, b.stream);
}

#[test]
fn an_option_is_a_boolean_and_a_value() {
    let mut encoder = Encoder::new(Vec::new(), Context::<()>::new());
    Some(0x0201u16).encode(&mut encoder).unwrap();
    None::<u16>.encode(&mut encoder).unwrap();
    assert_eq!(encoder.stream, vec![1u8, 1, 2, 0]);

    let mut ctxt = Context::<()>::new();
    ctxt.bool_flatten = Some(true);
    let mut encoder = Encoder::new(Vec::new(), ctxt);
    Some(5u8).encode(&mut encoder).unwrap();
    assert_eq!(encoder.stream, vec![5u8]);
    assert!(matches!(
        {
            encoder.ctxt.bool_flatten = Some(true);
            None::<u8>.encode(&mut encoder)
        },
        Err(EncodingError::FlattenError(FlattenError::BoolMismatch { expected: true, got: false }))
    ));
}

#[test]
fn a_bad_boolean_is_invalid() {
    let bytes = [2u8];
    let mut decoder = Encoder::new(Slice::new(&bytes), Context::<()>::new());
    assert!(matches!(decoder.read_bool(), Err(EncodingError::InvalidBool)));
    let mut decoder = Encoder::new(Slice::new(&bytes), Context::<()>::new());
    assert!(matches!(Option::<u8>::decode(&mut decoder), Err(EncodingError::InvalidBool)));
}

#[test]
fn booleans_are_one_byte() {
    let mut encoder = Encoder::new(Vec::new(), Context::<()>::new());
    encoder.write_bool(true).unwrap();
    encoder.write_bool(false).unwrap();
    assert_eq!(encoder.stream, vec![1u8, 0]);
}

#[test]
fn raw_bytes_pass_as_they_are() {
    let mut s = BinSettings::new();
    s.num_repr.num_encoding = NumEncoding::Leb128;
    let mut encoder = Encoder::new(Vec::new(), Context::<()>::with_settings(s));
    encoder.write_byte(0xFF).unwrap();
    encoder.write_bytes(&[0x80, 0x81]).unwrap();
    assert_eq!(encoder.stream, vec![0xFFu8, 0x80, 0x81]);
    let (bytes, ctxt) = encoder.finish();
    let mut decoder = Encoder::new(Slice::new(&bytes), ctxt);
    assert_eq!(decoder.read_byte().unwrap(), 0xFF);
    let mut two = [0u8; 2];
    decoder.read_bytes(&mut two).unwrap();
    assert_eq!(two, [0x80, 0x81]);
    assert!(matches!(decoder.read_byte(), Err(EncodingError::UnexpectedEnd)));
}

#[test]
fn seeking_codecs_are_the_plain_ones() {
    let data = [0u8; 4];
    let mut d = Encoder::new(Slice::new(&data), Context::<()>::new());
    assert_eq!(u32::seek_decode(&mut d).unwrap(), 0);
    assert_eq!(d.stream.available(), 0);
}

#[test]
fn defaults() {
    assert_eq!(
        NumRepr::new(),
        NumRepr { endianness: Endianness::LittleEndian, num_encoding: NumEncoding::Fixed }
    );
    assert_eq!(NumRepr::default(), NumRepr::new());
    assert_eq!(
        SizeRepr::new(),
        SizeRepr {
            endianness: Endianness::LittleEndian,
            num_encoding: NumEncoding::Fixed,
            width: BitWidth::Bit64,
            max_size: usize::MAX,
        }
    );
    assert_eq!(SizeRepr::default(), SizeRepr::new());
    assert_eq!(
        VariantRepr::new(),
        VariantRepr {
            endianness: Endianness::LittleEndian,
            num_encoding: NumEncoding::Fixed,
            width: BitWidth::Bit32,
        }
    );
    assert_eq!(VariantRepr::default(), VariantRepr::new());
    assert_eq!(
        StringRepr::new(),
        StringRepr { str_encoding: StrEncoding::Utf8, endianness: Endianness::LittleEndian }
    );
    assert_eq!(StringRepr::default(), StringRepr::new());
    assert_eq!(
        BinSettings::new(),
        BinSettings {
            num_repr: NumRepr::new(),
            size_repr: SizeRepr::new(),
            variant_repr: VariantRepr::new(),
            string_repr: StringRepr::new(),
        }
    );
    assert_eq!(BinSettings::default(), BinSettings::new());
    assert_eq!(Endianness::default(), Endianness::BigEndian);
    assert_eq!(NumEncoding::default(), NumEncoding::Fixed);
    assert_eq!(BitWidth::default(), BitWidth::Bit64);
    assert_eq!(StrEncoding::default(), StrEncoding::Utf8);
}

#[test]
fn widths_and_units() {
    assert_eq!(BitWidth::Bit8.bits(), 8);
    assert_eq!(BitWidth::Bit16.bits(), 16);
    assert_eq!(BitWidth::Bit32.bytes(), 4);
    assert_eq!(BitWidth::Bit64.bytes(), 8);
    assert_eq!(BitWidth::Bit128.bits(), 128);
    assert_eq!(BitWidth::Bit128.bytes(), 16);
    assert_eq!(BitWidth::native().bits(), usize::BITS as usize);
    assert_eq!(StrEncoding::Utf8.bytes(), 1);
    assert_eq!(StrEncoding::Utf16.bytes(), 2);
    assert_eq!(StrEncoding::Utf32.bytes(), 4);
    assert!(NumEncoding::Fixed.borrowable());
    assert!(!NumEncoding::Leb128.borrowable());
    assert!(!NumEncoding::ProtobufWasteful.borrowable());
    assert!(!NumEncoding::ProtobufZigzag.borrowable());
    let little = u16::from_ne_bytes([1, 0]) == 1;
    assert_eq!(Endianness::native() == Endianness::LittleEndian, little);
}

#[test]
fn contexts() {
    let c = Context::<u8>::new();
    assert!(c.user.is_none());
    assert_eq!(c.settings, BinSettings::new());
    assert_eq!((c.bool_flatten, c.variant_flatten, c.size_flatten), (None, None, None));

    let mut s = BinSettings::new();
    s.size_repr.max_size = 10;
    let key = 0xABCDu32;
    let mut c = Context::with_user_data(s, &key);
    assert_eq!(c.user, Some(&0xABCD));
    assert_eq!(c.settings, s);
    c.size_flatten = Some(4);
    c.bool_flatten = Some(false);
    assert_eq!(c.state().size_flatten, Some(4));
    assert_eq!(c.size_flatten(), Some(4));
    assert_eq!(c.size_flatten(), None);
    assert_eq!(c.bool_flatten(), Some(false));
    assert_eq!(c.bool_flatten, None);
    assert_eq!(c.variant_flatten(), None);
    c.size_flatten = Some(1);
    c.reset(BinSettings::new());
    assert_eq!(c.settings, BinSettings::new());
    assert_eq!(c.size_flatten, None);
    assert!(c.user.is_none());
    let copy = c;
    assert_eq!(copy.settings, c.clone().settings);
    assert_eq!(Context::<()>::with_settings(s).settings, s);
}

#[test]
fn kinds_of_errors() {
    assert_eq!(EncodingError::IOError(ErrorKind::BrokenPipe).kind(), ErrorKind::BrokenPipe);
    assert_eq!(EncodingError::UnexpectedEnd.kind(), ErrorKind::Other);
    assert_eq!(EncodingError::FlattenError(FlattenError::InvalidBool).kind(), ErrorKind::InvalidInput);
    assert_eq!(EncodingError::LockError.kind(), ErrorKind::Other);
    assert_eq!(EncodingError::BorrowError(BorrowError::Unsupported).kind(), ErrorKind::Other);
    assert_eq!(EncodingError::VarIntError.kind(), ErrorKind::InvalidData);
    assert_eq!(EncodingError::InvalidChar.kind(), ErrorKind::InvalidData);
    assert_eq!(EncodingError::InvalidBool.kind(), ErrorKind::InvalidData);
    assert_eq!(EncodingError::InvalidVariant.kind(), ErrorKind::InvalidData);
    assert_eq!(
        EncodingError::MaxSizeExceeded { max: 1, requested: 2 }.kind(),
        ErrorKind::InvalidData
    );
    let e = EncodingError::validation_error(String::from("too young"));
    assert!(matches!(&e, EncodingError::ValidationError(m) if m == "too young"));
    assert_eq!(e.kind(), ErrorKind::InvalidData);
}

#[test]
fn unit_writes_nothing_and_succeeds() {
    let mut encoder = Encoder::new(Vec::new(), Context::<()>::new());
    encoder.write_u8(9).unwrap();
    ().encode(&mut encoder).unwrap();
    assert_eq!(encoder.stream, vec![9u8]);

    let mut room = [0u8; 0];
    let mut full = Encoder::new(SliceMut::new(&mut room), Context::<()>::new());
    assert!(().encode(&mut full).is_ok());
    assert!(matches!(full.write_u8(1), Err(EncodingError::UnexpectedEnd)));
}

#[test]
fn pairs_are_the_first_and_then_the_second() {
    let mut encoder = Encoder::new(Vec::new(), Context::<()>::new());
    (0x0102u16, Some(7u8)).encode(&mut encoder).unwrap();
    let (bytes, ctxt) = encoder.finish();
    assert_eq!(bytes, vec![0x02u8, 0x01, 1, 7]);

    let mut d = Encoder::new(Slice::new(&bytes), ctxt);
    let back = <(u16, Option<u8>)>::decode(&mut d).unwrap();
    assert_eq!(back, (0x0102, Some(7)));
    assert_eq!(d.stream.available(), 0);

    let mut d = Encoder::new(Slice::new(&bytes[..3]), Context::<()>::new());
    assert!(matches!(<(u16, Option<u8>)>::decode(&mut d), Err(EncodingError::UnexpectedEnd)));
    let mut d = Encoder::new(Slice::new(&[1u8, 2, 3]), Context::<()>::new());
    assert!(matches!(<(u16, Option<u8>)>::decode(&mut d), Err(EncodingError::InvalidBool)));
}

#[test]
fn markers_take_no_bytes() {
    let mut encoder = Encoder::new(Vec::new(), Context::<()>::new());
    core::marker::PhantomData::<u64>.encode(&mut encoder).unwrap();
    assert!(encoder.stream.is_empty());
    let mut d = Encoder::new(Slice::new(&[5u8]), Context::<()>::new());
    let _marker = <core::marker::PhantomData<u64>>::decode(&mut d).unwrap();
    assert_eq!(d.stream.available(), 1);
}

#[test]
fn null_terminated_strings_end_with_a_null() {
    let mut encoder = Encoder::new(Vec::new(), Context::<()>::new());
    encode_cstr(&mut encoder, b"abc").unwrap();
    encode_cstr(&mut encoder, b"").unwrap();
    assert_eq!(encoder.stream, vec![b'a', b'b', b'c', 0, 0]);
    assert!(matches!(
        encode_cstr(&mut encoder, b"a\0b"),
        Err(EncodingError::StringError(StringError::InvalidCString))
    ));
    assert_eq!(encoder.stream.len(), 5);

    let (bytes, ctxt) = encoder.finish();
    let mut d = Encoder::new(Slice::new(&bytes), ctxt);
    assert_eq!(decode_cstring(&mut d).unwrap(), b"abc".to_vec());
    assert_eq!(decode_cstring(&mut d).unwrap(), Vec::<u8>::new());
    assert!(matches!(decode_cstring(&mut d), Err(EncodingError::UnexpectedEnd)));

    let mut d = Encoder::new(Slice::new(b"abc"), Context::<()>::new());
    assert!(matches!(decode_cstring(&mut d), Err(EncodingError::UnexpectedEnd)));
}

#[test]
fn null_terminated_strings_behind_an_armed_size() {
    let mut ctxt = Context::<()>::new();
    ctxt.size_flatten = Some(3);
    let mut encoder = Encoder::new(Vec::new(), ctxt);
    encode_cstr(&mut encoder, b"abc").unwrap();
    assert_eq!(encoder.stream, vec![b'a', b'b', b'c']);
    assert_eq!(encoder.ctxt.size_flatten, None);

    let mut ctxt = Context::<()>::new();
    ctxt.size_flatten = Some(2);
    let mut d = Encoder::new(Slice::new(b"abc"), ctxt);
    assert_eq!(decode_cstring(&mut d).unwrap(), b"ab".to_vec());
    assert_eq!(d.stream.available(), 1);
    assert_eq!(d.ctxt.size_flatten, None);

    let mut ctxt = Context::<()>::new();
    ctxt.size_flatten = Some(3);
    let mut d = Encoder::new(Slice::new(b"a\0c"), ctxt);
    assert!(matches!(
        decode_cstring(&mut d),
        Err(EncodingError::StringError(StringError::InvalidCString))
    ));

    let mut ctxt = Context::<()>::new();
    ctxt.size_flatten = Some(4);
    let mut d = Encoder::new(Slice::new(b"abc"), ctxt);
    assert!(matches!(decode_cstring(&mut d), Err(EncodingError::UnexpectedEnd)));
}

#[test]
fn arrays_are_their_items_with_no_length() {
    let mut encoder = Encoder::new(Vec::new(), Context::<()>::new());
    [0x0102u16, 0x0304, 0x0506].encode(&mut encoder).unwrap();
    let none: [u8; 0] = [];
    none.encode(&mut encoder).unwrap();
    let (bytes, ctxt) = encoder.finish();
    assert_eq!(bytes, vec![2u8, 1, 4, 3, 6, 5]);

    let mut d = Encoder::new(Slice::new(&bytes), ctxt);
    assert_eq!(<[u16; 2]>::decode(&mut d).unwrap(), [0x0102, 0x0304]);
    assert_eq!(<[u8; 0]>::decode(&mut d).unwrap(), none);
    assert_eq!(d.stream.available(), 2);
    assert!(matches!(<[u16; 2]>::decode(&mut d), Err(EncodingError::UnexpectedEnd)));

    let mut d = Encoder::new(Slice::new(&[1u8, 0, 2]), Context::<()>::new());
    assert!(matches!(<[bool; 3]>::decode(&mut d), Err(EncodingError::InvalidBool)));
    let mut d = Encoder::new(Slice::new(&[1u8, 0, 1, 9]), Context::<()>::new());
    assert_eq!(<[bool; 3]>::decode(&mut d).unwrap(), [true, false, true]);
    assert_eq!(d.stream.available(), 1);
}

#[test]
fn the_first_null_of_some_bytes() {
    assert_eq!(ende::containers::first_null(b"ab\0c\0"), Some(2));
    assert_eq!(ende::containers::first_null(b"\0"), Some(0));
    assert_eq!(ende::containers::first_null(b"abc"), None);
    assert_eq!(ende::containers::first_null(b""), None);
}

#[test]
fn items_with_no_length_before_them() {
    let mut encoder = Encoder::new(Vec::new(), Context::<()>::new());
    ende::containers::encode_items(&mut encoder, &[7u16, 8]).unwrap();
    ende::containers::encode_items::<u16, _, _>(&mut encoder, &[]).unwrap();
    assert_eq!(encoder.stream, vec![7u8, 0, 8, 0]);
    let (bytes, ctxt) = encoder.finish();
    let mut d = Encoder::new(Slice::new(&bytes), ctxt);
    assert_eq!(ende::containers::decode_items::<u16, _, _>(&mut d, 1).unwrap(), vec![7u16]);
    assert_eq!(ende::containers::decode_items::<u16, _, _>(&mut d, 0).unwrap(), Vec::<u16>::new());
    assert!(matches!(
        ende::containers::decode_items::<u16, _, _>(&mut d, 2),
        Err(EncodingError::UnexpectedEnd)
    ));
}
