use ende::io::Slice;
use ende::BinSettings;
use ende::BitWidth;
use ende::BorrowDecode;
use ende::BorrowError;
use ende::Context;
use ende::Encoder;
use ende::EncodingError;
use ende::Endianness;
use ende::NumEncoding;
use ende::SeekBorrowDecode;

fn other(order: Endianness) -> Endianness {
    match order {
        Endianness::LittleEndian => Endianness::BigEndian,
        Endianness::BigEndian => Endianness::LittleEndian,
    }
}

#[test]
fn borrowed_numbers_are_those_that_a_read_gives() {
    let words: Vec<u64> = vec![0x0102030405060708, 0x1112131415161718, u64::MAX, 0];
    let bytes: &[u8] = bytemuck::cast_slice(&words);
    let native = Endianness::native();

    let mut borrower = Encoder::new(Slice::new(bytes), Context::<()>::new());
    let u16s = borrower.borrow_u16_slice(4, NumEncoding::Fixed, native).unwrap();
    let u64s = borrower.borrow_u64_slice(2, NumEncoding::Fixed, native).unwrap();
    let i32s = borrower.borrow_i32_slice(2, NumEncoding::Fixed, native).unwrap();
    assert_eq!(borrower.stream.available(), 0);

    let mut reader = Encoder::new(Slice::new(bytes), Context::<()>::new());
    for item in u16s {
        assert_eq!(*item, reader.read_u16_with(NumEncoding::Fixed, native).unwrap());
    }
    for item in u64s {
        assert_eq!(*item, reader.read_u64_with(NumEncoding::Fixed, native).unwrap());
    }
    for item in i32s {
        assert_eq!(*item, reader.read_i32_with(NumEncoding::Fixed, native).unwrap());
    }
    assert_eq!(u64s, &words[1..3]);
}

#[test]
fn every_width_can_be_borrowed() {
    let words: Vec<u128> = vec![u128::MAX / 3, 7, u128::MAX, u128::MAX];
    let bytes: &[u8] = bytemuck::cast_slice(&words);
    let native = Endianness::native();
    let mut d = Encoder::new(Slice::new(bytes), Context::<()>::new());
    assert_eq!(d.borrow_u128_slice(1, NumEncoding::Fixed, native).unwrap(), &words[..1]);
    assert_eq!(d.borrow_i128_slice(1, NumEncoding::Fixed, native).unwrap(), &[7i128]);
    assert_eq!(d.borrow_u32_slice(1, NumEncoding::Fixed, native).unwrap().len(), 1);
    assert_eq!(d.borrow_i16_slice(2, NumEncoding::Fixed, native).unwrap(), &[-1i16, -1]);
    assert_eq!(d.borrow_i64_slice(1, NumEncoding::Fixed, native).unwrap(), &[-1i64]);
    assert_eq!(d.borrow_i8_slice(1, NumEncoding::Fixed).unwrap(), &[-1i8]);
    assert_eq!(d.borrow_u8_slice(1, NumEncoding::Fixed).unwrap(), &[255u8]);
    assert_eq!(d.borrow_byte_slice(2).unwrap(), &[255u8, 255]);
    assert_eq!(d.stream.available(), 12);
}

#[test]
fn no_variable_encoding_can_be_borrowed() {
    let words: Vec<u64> = vec![1, 2];
    let bytes: &[u8] = bytemuck::cast_slice(&words);
    for enc in [
        NumEncoding::Leb128,
        NumEncoding::ProtobufWasteful,
        NumEncoding::ProtobufZigzag,
    ] {
        let mut d = Encoder::new(Slice::new(bytes), Context::<()>::new());
        match d.borrow_u32_slice(2, enc, Endianness::native()) {
            Err(EncodingError::BorrowError(BorrowError::NonBorrowableNumEncoding {
                num_encoding,
            })) => assert_eq!(num_encoding, enc),
            other => panic!("unexpected: {:?}", other),
        }
        assert!(matches!(
            d.borrow_u8_slice(2, enc),
            Err(EncodingError::BorrowError(BorrowError::NonBorrowableNumEncoding { .. }))
        ));
        assert!(matches!(
            d.borrow_usize_slice(1, enc, Endianness::native(), BitWidth::native()),
            Err(EncodingError::BorrowError(BorrowError::NonBorrowableNumEncoding { .. }))
        ));
        assert_eq!(d.stream.available(), 16);
    }
    // whatever the buffer holds, even nothing
    let mut d = Encoder::new(Slice::new(&[]), Context::<()>::new());
    assert!(matches!(
        d.borrow_u64_slice(0, NumEncoding::Leb128, Endianness::native()),
        Err(EncodingError::BorrowError(BorrowError::NonBorrowableNumEncoding { .. }))
    ));
}

#[test]
fn the_other_byte_order_cannot_be_borrowed() {
    let words: Vec<u64> = vec![1, 2];
    let bytes: &[u8] = bytemuck::cast_slice(&words);
    let native = Endianness::native();
    let mut d = Encoder::new(Slice::new(bytes), Context::<()>::new());
    match d.borrow_u16_slice(2, NumEncoding::Fixed, other(native)) {
        Err(EncodingError::BorrowError(BorrowError::EndiannessMismatch { found, system })) => {
            assert_eq!(found, other(native));
            assert_eq!(system, native);
        }
        other => panic!("unexpected: {:?}", other),
    }
    assert_eq!(d.stream.available(), 16);
}

#[test]
fn misaligned_data_is_left_for_a_copying_read() {
    let words: Vec<u64> = vec![0x0102030405060708, 0x1112131415161718];
    let bytes: &[u8] = bytemuck::cast_slice(&words);
    let native = Endianness::native();
    let mut d = Encoder::new(Slice::new(&bytes[1..]), Context::<()>::new());
    assert!(matches!(
        d.borrow_u32_slice(2, NumEncoding::Fixed, native),
        Err(EncodingError::BorrowError(BorrowError::AlignmentMismatch))
    ));
    assert_eq!(d.stream.available(), 15);
    let first = d.read_u32_with(NumEncoding::Fixed, native).unwrap();
    let mut four = [0u8; 4];
    four.copy_from_slice(&bytes[1..5]);
    assert_eq!(first, u32::from_ne_bytes(four));
}

#[test]
fn too_few_bytes_cannot_be_borrowed() {
    let words: Vec<u64> = vec![1];
    let bytes: &[u8] = bytemuck::cast_slice(&words);
    let mut d = Encoder::new(Slice::new(bytes), Context::<()>::new());
    assert!(matches!(
        d.borrow_u32_slice(3, NumEncoding::Fixed, Endianness::native()),
        Err(EncodingError::UnexpectedEnd)
    ));
    assert!(matches!(
        d.borrow_u32_slice(usize::MAX, NumEncoding::Fixed, Endianness::native()),
        Err(EncodingError::UnexpectedEnd)
    ));
    assert_eq!(d.stream.available(), 8);
}

#[test]
fn sizes_are_borrowed_at_the_width_of_the_machine_only() {
    let sizes: Vec<usize> = vec![1, 2, 300];
    let bytes: &[u8] = bytemuck::cast_slice(&sizes);
    let native = Endianness::native();
    let width = BitWidth::native();
    let narrower = if width == BitWidth::Bit64 { BitWidth::Bit32 } else { BitWidth::Bit16 };

    let mut d = Encoder::new(Slice::new(bytes), Context::<()>::new());
    match d.borrow_usize_slice(3, NumEncoding::Fixed, native, narrower) {
        Err(EncodingError::BorrowError(BorrowError::BitWidthMismatch { found, system })) => {
            assert_eq!(found, narrower);
            assert_eq!(system, width);
        }
        other => panic!("unexpected: {:?}", other),
    }
    assert_eq!(d.borrow_usize_slice(3, NumEncoding::Fixed, native, width).unwrap(), &sizes[..]);

    let mut s = BinSettings::new();
    s.size_repr.max_size = 299;
    let mut d = Encoder::new(Slice::new(bytes), Context::<()>::with_settings(s));
    assert!(matches!(
        d.borrow_usize_slice(3, NumEncoding::Fixed, native, width),
        Err(EncodingError::MaxSizeExceeded { max: 299, requested: 300 })
    ));
    assert_eq!(d.borrow_usize_slice(2, NumEncoding::Fixed, native, width).unwrap(), &[1, 2]);

    let signed: Vec<isize> = vec![-1, 5];
    let bytes: &[u8] = bytemuck::cast_slice(&signed);
    let mut d = Encoder::new(Slice::new(bytes), Context::<()>::new());
    assert_eq!(d.borrow_isize_slice(2, NumEncoding::Fixed, native, width).unwrap(), &signed[..]);
}

#[test]
fn peeking_takes_nothing() {
    let bytes = [0u8, 7, 15, 42, 2];
    let d = Encoder::new(Slice::new(&bytes), Context::<()>::new());
    let first = d.peek_bytes(3).unwrap();
    let second = d.peek_bytes(3).unwrap();
    assert_eq!(first, second);
    assert_eq!(first, &[0u8, 7, 15]);
    assert!(matches!(d.peek_bytes(6), Err(EncodingError::UnexpectedEnd)));
    assert_eq!(d.stream.available(), 5);
}

#[test]
fn bytes_are_decoded_in_place() {
    let mut encoder = Encoder::new(Vec::new(), Context::<()>::new());
    encoder.write_usize(3).unwrap();
    encoder.write_bytes(&[7, 8, 9, 10]).unwrap();
    let (bytes, ctxt) = encoder.finish();
    let mut d = Encoder::new(Slice::new(&bytes), ctxt);
    let got = <&[u8]>::borrow_decode(&mut d).unwrap();
    assert_eq!(got, &[7u8, 8, 9]);
    assert_eq!(d.stream.available(), 1);
}

#[test]
fn bytes_in_place_need_the_fixed_encoding() {
    let mut encoder = Encoder::new(Vec::new(), Context::<()>::new());
    encoder.write_usize(3).unwrap();
    encoder.write_bytes(&[7, 8, 9]).unwrap();
    let (bytes, _) = encoder.finish();

    let mut s = BinSettings::new();
    s.num_repr.num_encoding = NumEncoding::Leb128;
    let mut d = Encoder::new(Slice::new(&bytes), Context::<()>::with_settings(s));
    match <&[u8]>::borrow_decode(&mut d) {
        Err(EncodingError::BorrowError(BorrowError::NonBorrowableNumEncoding { num_encoding })) => {
            assert_eq!(num_encoding, NumEncoding::Leb128);
        }
        other => panic!("unexpected: {:?}", other),
    }
}

#[test]
fn bytes_in_place_that_run_short() {
    let mut encoder = Encoder::new(Vec::new(), Context::<()>::new());
    encoder.write_usize(5).unwrap();
    encoder.write_bytes(&[7, 8]).unwrap();
    let (bytes, _) = encoder.finish();

    let mut d = Encoder::new(Slice::new(&bytes), Context::<()>::new());
    assert!(matches!(<&[u8]>::borrow_decode(&mut d), Err(EncodingError::UnexpectedEnd)));

    let mut d = Encoder::new(Slice::new(&bytes[..4]), Context::<()>::new());
    assert!(matches!(<&[u8]>::borrow_decode(&mut d), Err(EncodingError::UnexpectedEnd)));
}

#[test]
fn bytes_are_decoded_in_place_from_a_stream_that_seeks() {
    let mut encoder = Encoder::new(Vec::new(), Context::<()>::new());
    encoder.write_usize(2).unwrap();
    encoder.write_bytes(&[40, 41, 42]).unwrap();
    let (bytes, _) = encoder.finish();

    let mut d = Encoder::new(Slice::new(&bytes), Context::<()>::new());
    let got = <&[u8] as SeekBorrowDecode>::seek_borrow_decode(&mut d).unwrap();
    assert_eq!(got, &[40u8, 41]);
    assert_eq!(d.stream.available(), 1);

    let mut d = Encoder::new(Slice::new(&bytes[..9]), Context::<()>::new());
    assert!(matches!(
        <&[u8] as SeekBorrowDecode>::seek_borrow_decode(&mut d),
        Err(EncodingError::UnexpectedEnd)
    ));
}
