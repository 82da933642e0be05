use ende::decode_with_compression;
use ende::decode_with_encryption;
use ende::encode_with_compression;
use ende::encode_with_encryption;
use ende::io::SizeLimit;
use ende::io::Slice;
use ende::modifier::decode_with_transform;
use ende::modifier::discard;
use ende::modifier::drain;
use ende::modifier::encode_with_transform;
use ende::modifier::settle;
use ende::modifier::Custom;
use ende::modifier::Plain;
use ende::BinSettings;
use ende::BitWidth;
use ende::Compression;
use ende::CompressionState;
use ende::CompressionTextError;
use ende::Context;
use ende::Decode;
use ende::DeflateLevel;
use ende::Encode;
use ende::Encoder;
use ende::EncodingError;
use ende::ErrorKind;
use ende::GZipLevel;
use ende::NumEncoding;
use ende::Transform;
use ende::ZLibLevel;
use ende::ZStdLevel;

/// A cipher for the tests: a length byte, then every byte xored with a key.
fn xor(
    key: u8,
) -> Custom<
    impl Fn(&[u8]) -> Result<Vec<u8>, EncodingError>,
    impl Fn(&[u8]) -> Result<(Vec<u8>, usize), EncodingError>,
> {
    Custom::new(
        move |plain: &[u8]| {
            if plain.len() > 255 {
                return Err(EncodingError::IOError(ErrorKind::InvalidInput));
            }
            let mut frame = vec![plain.len() as u8];
            for b in plain {
                frame.push(b ^ key);
            }
            Ok(frame)
        },
        move |wire: &[u8]| {
            let Some((len, rest)) = wire.split_first() else {
                return Err(EncodingError::UnexpectedEnd);
            };
            let len = *len as usize;
            if rest.len() < len {
                return Err(EncodingError::UnexpectedEnd);
            }
            Ok((rest[..len].iter().map(|b| b ^ key).collect(), len + 1))
        },
    )
}

const ALL: [Compression; 5] = [
    Compression::Uncompressed,
    Compression::ZStd(ZStdLevel::L3),
    Compression::ZLib(ZLibLevel::L6),
    Compression::Deflate(DeflateLevel::L9),
    Compression::GZip(GZipLevel::L1),
];

#[test]
fn every_compression_opens_what_it_frames() {
    let data: Vec<u8> = (0..2000u32).map(|i| (i % 7) as u8).collect();
    for c in ALL {
        let frame = c.compress(&data).unwrap();
        if !c.is_none() {
            assert!(frame.len() < data.len());
            assert_ne!(frame, data);
        }
        let mut wire = frame.clone();
        wire.extend_from_slice(&[1, 2, 3]);
        let (plain, used) = c.decompress(&wire).unwrap();
        if c.is_none() {
            assert_eq!(plain, wire);
            assert_eq!(used, wire.len());
        } else {
            assert_eq!(plain, data);
            assert_eq!(used, frame.len());
        }
    }
}

#[test]
fn compression_is_a_function_of_data_and_level() {
    let data = b"the same bytes in, the same bytes out".repeat(20);
    for c in ALL {
        assert_eq!(c.compress(&data).unwrap(), c.compress(&data).unwrap());
    }
    let low = Compression::ZLib(ZLibLevel::L0).compress(&data).unwrap();
    let high = Compression::ZLib(ZLibLevel::L9).compress(&data).unwrap();
    assert!(high.len() < low.len());
}

#[test]
fn bytes_that_are_no_frame_are_invalid_data() {
    for c in ALL {
        if c.is_none() {
            continue;
        }
        let r = c.decompress(&[0xFF, 0xFE, 0xFD, 0xFC, 0xFB, 0xFA, 0xF9, 0xF8, 0xF7]);
        assert_eq!(r, Err(ende::CompressionError::IOError(ErrorKind::InvalidData)));
        let r = c.revert(&[0xFF, 0xFE, 0xFD, 0xFC, 0xFB, 0xFA, 0xF9, 0xF8, 0xF7]);
        assert!(matches!(r, Err(EncodingError::IOError(ErrorKind::InvalidData))));
    }
}

#[test]
fn a_compressed_layer_round_trips() {
    for c in ALL {
        let mut encoder = Encoder::new(Vec::new(), Context::<()>::new());
        encoder.write_u8(1).unwrap();
        encode_with_compression(&mut encoder, Some(c), |e| {
            e.write_str("inside the layer, inside the layer, inside the layer")?;
            e.write_u32(0xDEADBEEF)
        })
        .unwrap();
        encoder.write_u8(2).unwrap();
        let (bytes, ctxt) = encoder.finish();

        let mut decoder = Encoder::new(Slice::new(&bytes), ctxt);
        assert_eq!(decoder.read_u8().unwrap(), 1);
        let (text, number) = decode_with_compression(&mut decoder, Some(c), |d| {
            let text = d.read_str()?;
            let number = d.read_u32()?;
            Ok((text, number))
        })
        .unwrap();
        assert_eq!(text, "inside the layer, inside the layer, inside the layer");
        assert_eq!(number, 0xDEADBEEF);
        assert_eq!(decoder.read_u8().unwrap(), 2);
        assert_eq!(decoder.stream.available(), 0);
    }
}

#[test]
fn an_absent_compression_lets_bytes_pass() {
    let mut encoder = Encoder::new(Vec::new(), Context::<()>::new());
    encode_with_compression(&mut encoder, None, |e| e.write_u16(0x0201)).unwrap();
    encoder.write_u8(3).unwrap();
    assert_eq!(encoder.stream, vec![1u8, 2, 3]);
    let (bytes, ctxt) = encoder.finish();
    let mut decoder = Encoder::new(Slice::new(&bytes), ctxt);
    let v = decode_with_compression(&mut decoder, None, |d| d.read_u16()).unwrap();
    assert_eq!(v, 0x0201);
    assert_eq!(decoder.read_u8().unwrap(), 3);
}

#[test]
fn an_absent_cipher_lets_bytes_pass() {
    let mut encoder = Encoder::new(Vec::new(), Context::<()>::new());
    encode_with_encryption(&mut encoder, None::<&Compression>, |e| e.write_u16(0x0201)).unwrap();
    assert_eq!(encoder.stream, vec![1u8, 2]);
    let (bytes, ctxt) = encoder.finish();
    let mut decoder = Encoder::new(Slice::new(&bytes), ctxt);
    let v = decode_with_encryption(&mut decoder, None::<&Compression>, |d| d.read_u8()).unwrap();
    assert_eq!(v, 1);
    assert_eq!(decoder.stream.available(), 1);
}

#[test]
fn a_cipher_layer_frames_what_the_body_wrote() {
    let mut encoder = Encoder::new(Vec::new(), Context::<()>::new());
    encode_with_encryption(&mut encoder, Some(&xor(0xFF)), |e| e.write_bytes(&[1, 2, 3])).unwrap();
    assert_eq!(encoder.stream, vec![3u8, 0xFE, 0xFD, 0xFC]);
}

#[test]
fn nested_layers_unwind_in_order() {
    for c in ALL {
        let key = xor(0x5A);
        let mut encoder = Encoder::new(Vec::new(), Context::<()>::new());
        encode_with_compression(&mut encoder, Some(c), |outer| {
            outer.write_u8(7)?;
            encode_with_encryption(outer, Some(&key), |inner| inner.write_str("secret"))?;
            outer.write_u8(8)
        })
        .unwrap();
        encoder.write_u8(9).unwrap();
        let (bytes, ctxt) = encoder.finish();

        let mut decoder = Encoder::new(Slice::new(&bytes), ctxt);
        let text = decode_with_compression(&mut decoder, Some(c), |outer| {
            assert_eq!(outer.read_u8()?, 7);
            let text = decode_with_encryption(outer, Some(&key), |inner| inner.read_str())?;
            assert_eq!(outer.read_u8()?, 8);
            Ok(text)
        })
        .unwrap();
        assert_eq!(text, "secret");
        assert_eq!(decoder.read_u8().unwrap(), 9);
    }
}

#[test]
fn a_failed_body_still_closes_its_layer() {
    let c = Compression::ZLib(ZLibLevel::L6);
    let mut encoder = Encoder::new(Vec::new(), Context::<()>::new());
    let r = encode_with_compression(&mut encoder, Some(c), |e| {
        e.write_u32(0x01020304)?;
        Err(EncodingError::InvalidVariant)
    });
    assert!(matches!(r, Err(EncodingError::InvalidVariant)));
    assert!(!encoder.stream.is_empty());
    encoder.write_u8(0xAA).unwrap();

    // the frame is whole: what was written before the failure reads back
    let (bytes, ctxt) = encoder.finish();
    let mut decoder = Encoder::new(Slice::new(&bytes), ctxt);
    let v = decode_with_compression(&mut decoder, Some(c), |d| d.read_u32()).unwrap();
    assert_eq!(v, 0x01020304);
    assert_eq!(decoder.read_u8().unwrap(), 0xAA);
}

#[test]
fn a_body_that_reads_less_than_the_frame_still_consumes_it() {
    let c = Compression::Deflate(DeflateLevel::L5);
    let mut encoder = Encoder::new(Vec::new(), Context::<()>::new());
    encode_with_compression(&mut encoder, Some(c), |e| e.write_bytes(&[1, 2, 3, 4])).unwrap();
    encoder.write_u8(0xBB).unwrap();
    let (bytes, ctxt) = encoder.finish();
    let mut decoder = Encoder::new(Slice::new(&bytes), ctxt);
    let v = decode_with_compression(&mut decoder, Some(c), |d| d.read_u8()).unwrap();
    assert_eq!(v, 1);
    assert_eq!(decoder.read_u8().unwrap(), 0xBB);
}

#[test]
fn a_failing_decoding_body_keeps_its_failure_and_the_frame_is_consumed() {
    let key = xor(1);
    let mut encoder = Encoder::new(Vec::new(), Context::<()>::new());
    encode_with_encryption(&mut encoder, Some(&key), |e| e.write_u8(5)).unwrap();
    encoder.write_u8(6).unwrap();
    let (bytes, ctxt) = encoder.finish();
    let mut decoder = Encoder::new(Slice::new(&bytes), ctxt);
    let r: Result<u32, _> = decode_with_encryption(&mut decoder, Some(&key), |d| d.read_u32());
    assert!(matches!(r, Err(EncodingError::UnexpectedEnd)));
    assert_eq!(decoder.read_u8().unwrap(), 6);
}

#[test]
fn where_there_is_no_frame_nothing_is_consumed() {
    let bytes = [9u8, 1, 2];
    let mut decoder = Encoder::new(Slice::new(&bytes), Context::<()>::new());
    let mut ran = false;
    let r: Result<u8, _> = decode_with_transform(&mut decoder, &xor(0), |d| {
        ran = true;
        d.read_u8()
    });
    assert!(matches!(r, Err(EncodingError::UnexpectedEnd)));
    assert!(!ran);
    assert_eq!(decoder.stream.available(), 3);
}

#[test]
fn a_failure_to_close_replaces_success_only() {
    // the cipher refuses more than 255 bytes
    let mut encoder = Encoder::new(Vec::new(), Context::<()>::new());
    let r = encode_with_transform(&mut encoder, &xor(0), |e| e.write_bytes(&[0u8; 300]));
    assert!(matches!(r, Err(EncodingError::IOError(ErrorKind::InvalidInput))));
    assert!(encoder.stream.is_empty());
    let r = encode_with_transform(&mut encoder, &xor(0), |e| {
        e.write_bytes(&[0u8; 300])?;
        Err(EncodingError::LockError)
    });
    assert!(matches!(r, Err(EncodingError::LockError)));
}

#[test]
fn settling_results() {
    assert_eq!(settle(Ok(1), Ok(())).unwrap(), 1);
    assert!(matches!(
        settle(Ok(1), Err(EncodingError::UnexpectedEnd)),
        Err(EncodingError::UnexpectedEnd)
    ));
    assert!(matches!(
        settle::<u8>(Err(EncodingError::InvalidBool), Err(EncodingError::UnexpectedEnd)),
        Err(EncodingError::InvalidBool)
    ));
    assert!(matches!(
        settle::<u8>(Err(EncodingError::InvalidBool), Ok(())),
        Err(EncodingError::InvalidBool)
    ));
}

#[test]
fn the_layer_shares_the_context() {
    let mut ctxt = Context::<()>::new();
    ctxt.size_flatten = Some(2);
    let mut encoder = Encoder::new(Vec::new(), ctxt);
    encode_with_transform(&mut encoder, &Plain, |e| e.write_usize(2)).unwrap();
    assert!(encoder.stream.is_empty());
    assert_eq!(encoder.ctxt.size_flatten, None);
}

#[test]
fn compression_names_and_levels() {
    assert!(Compression::Uncompressed.is_none());
    assert!(Compression::ZStd(ZStdLevel::L22).is_zstd());
    assert!(Compression::ZLib(ZLibLevel::L0).is_zlib());
    assert!(Compression::Deflate(DeflateLevel::L1).is_deflate());
    assert!(Compression::GZip(GZipLevel::L9).is_gzip());
    assert!(!Compression::GZip(GZipLevel::L9).is_none());
    assert_eq!(ZStdLevel::L22.level(), 22);
    assert_eq!(ZStdLevel::from_level(1), Some(ZStdLevel::L1));
    assert_eq!(ZStdLevel::from_level(0), None);
    assert_eq!(ZStdLevel::from_level(23), None);
    assert_eq!(ZLibLevel::from_level(0), Some(ZLibLevel::L0));
    assert_eq!(ZLibLevel::from_level(10), None);
    assert_eq!(DeflateLevel::from_level(9).map(|l| l.level()), Some(9));
    assert_eq!(GZipLevel::from_level(0), None);
    assert_eq!(GZipLevel::from_level(5), Some(GZipLevel::L5));
    let state = CompressionState::new();
    assert!(state.compression.is_none());
    assert_eq!(state.resolve(None), Compression::Uncompressed);
    assert_eq!(
        state.resolve(Some(Compression::ZLib(ZLibLevel::L2))),
        Compression::ZLib(ZLibLevel::L2)
    );
}

#[test]
fn compressions_are_read_from_text() {
    assert_eq!(Compression::parse("None"), Ok(Compression::Uncompressed));
    assert_eq!(Compression::parse("ZStd/1"), Ok(Compression::ZStd(ZStdLevel::L1)));
    assert_eq!(Compression::parse("ZStd/22"), Ok(Compression::ZStd(ZStdLevel::L22)));
    assert_eq!(Compression::parse("ZLib/0"), Ok(Compression::ZLib(ZLibLevel::L0)));
    assert_eq!(Compression::parse("Deflate/9"), Ok(Compression::Deflate(DeflateLevel::L9)));
    assert_eq!(Compression::parse("GZip/5"), Ok(Compression::GZip(GZipLevel::L5)));
    assert_eq!(Compression::parse("ZStd/0"), Err(CompressionTextError::NoZStdLevel));
    assert_eq!(Compression::parse("ZStd/23"), Err(CompressionTextError::NoZStdLevel));
    assert_eq!(Compression::parse("ZStd/03"), Err(CompressionTextError::NoZStdLevel));
    assert_eq!(Compression::parse("ZStd/+3"), Err(CompressionTextError::NoZStdLevel));
    assert_eq!(Compression::parse("ZStd/"), Err(CompressionTextError::NoZStdLevel));
    assert_eq!(Compression::parse("ZStd/1/2"), Err(CompressionTextError::NoZStdLevel));
    assert_eq!(Compression::parse("ZLib/10"), Err(CompressionTextError::NoZLibLevel));
    assert_eq!(Compression::parse("Deflate/x"), Err(CompressionTextError::NoDeflateLevel));
    assert_eq!(Compression::parse("GZip/0"), Err(CompressionTextError::NoGZipLevel));
    assert_eq!(Compression::parse("zstd/3"), Err(CompressionTextError::UnknownFormat));
    assert_eq!(Compression::parse("/3"), Err(CompressionTextError::UnknownFormat));
    assert_eq!(Compression::parse("ZStd"), Err(CompressionTextError::Usage));
    assert_eq!(Compression::parse(""), Err(CompressionTextError::Usage));
    assert_eq!(Compression::parse("none"), Err(CompressionTextError::Usage));
    assert_eq!("GZip/9".parse::<Compression>(), Ok(Compression::GZip(GZipLevel::L9)));
    assert_eq!("GZip/10".parse::<Compression>(), Err("Out of range 1-9"));
    assert_eq!(
        "Brotli/1".parse::<Compression>(),
        Err("Allowed compression formats are: ZStd, ZLib, Deflate, GZip")
    );
    assert_eq!(
        "nothing".parse::<Compression>(),
        Err("Invalid compression format. Usage: \"{format}/{level}\"")
    );
}

#[test]
fn compressions_are_written_as_small_variants() {
    let mut s = BinSettings::new();
    s.variant_repr.width = BitWidth::Bit64;
    s.variant_repr.num_encoding = NumEncoding::Leb128;
    let mut encoder = Encoder::new(Vec::new(), Context::<()>::with_settings(s));
    Compression::Uncompressed.encode(&mut encoder).unwrap();
    Compression::ZStd(ZStdLevel::L19).encode(&mut encoder).unwrap();
    Compression::GZip(GZipLevel::L9).encode(&mut encoder).unwrap();
    ZLibLevel::L0.encode(&mut encoder).unwrap();
    DeflateLevel::L7.encode(&mut encoder).unwrap();
    assert_eq!(encoder.stream, vec![0u8, 1, 19, 4, 9, 0, 7]);
    assert_eq!(encoder.ctxt.settings, s);
    let (bytes, ctxt) = encoder.finish();
    let mut decoder = Encoder::new(Slice::new(&bytes), ctxt);
    assert_eq!(Compression::decode(&mut decoder).unwrap(), Compression::Uncompressed);
    assert_eq!(Compression::decode(&mut decoder).unwrap(), Compression::ZStd(ZStdLevel::L19));
    assert_eq!(Compression::decode(&mut decoder).unwrap(), Compression::GZip(GZipLevel::L9));
    assert_eq!(ZLibLevel::decode(&mut decoder).unwrap(), ZLibLevel::L0);
    assert_eq!(DeflateLevel::decode(&mut decoder).unwrap(), DeflateLevel::L7);
    assert_eq!(decoder.ctxt.settings, s);

    for bad in [[5u8, 1], [1, 0], [1, 23], [4, 0], [2, 10]] {
        let mut decoder = Encoder::new(Slice::new(&bad), Context::<()>::new());
        assert!(matches!(
            Compression::decode(&mut decoder),
            Err(EncodingError::InvalidVariant)
        ));
    }
    let mut decoder = Encoder::new(Slice::new(&[0u8]), Context::<()>::new());
    assert!(matches!(ZStdLevel::decode(&mut decoder), Err(EncodingError::InvalidVariant)));
    let mut decoder = Encoder::new(Slice::new(&[10u8]), Context::<()>::new());
    assert!(matches!(GZipLevel::decode(&mut decoder), Err(EncodingError::InvalidVariant)));
}

#[test]
fn a_reader_that_shows_nothing_ahead_is_read_to_its_end() {
    let c = Compression::ZLib(ZLibLevel::L6);
    let mut encoder = Encoder::new(Vec::new(), Context::<()>::new());
    encode_with_compression(&mut encoder, Some(c), |e| {
        e.write_str("behind a budget")?;
        e.write_u16(0x0A0B)
    })
    .unwrap();
    let frame = encoder.stream.len();
    encoder.write_u8(2).unwrap();
    let (bytes, ctxt) = encoder.finish();

    let reader = SizeLimit::new(Slice::new(&bytes), 0, frame);
    let mut decoder = Encoder::new(reader, ctxt);
    let (text, number) = decode_with_compression(&mut decoder, Some(c), |d| {
        let text = d.read_str()?;
        let number = d.read_u16()?;
        Ok((text, number))
    })
    .unwrap();
    assert_eq!(text, "behind a budget");
    assert_eq!(number, 0x0A0B);
    assert_eq!(decoder.stream.remaining_readable(), 0);
    assert!(matches!(decoder.read_u8(), Err(EncodingError::UnexpectedEnd)));
    assert_eq!(decoder.stream.into_inner().available(), 1);
}

#[test]
fn a_reader_that_shows_nothing_ahead_and_holds_no_frame() {
    let bytes = [1u8, 2, 3, 4, 5];
    let reader = SizeLimit::new(Slice::new(&bytes), 0, 4);
    let mut decoder = Encoder::new(reader, Context::<()>::new());
    let r = decode_with_compression(&mut decoder, Some(Compression::GZip(GZipLevel::L1)), |d| d.read_u8());
    assert!(matches!(r, Err(EncodingError::IOError(_))));
    assert_eq!(decoder.stream.remaining_readable(), 0);

    let reader = SizeLimit::new(Slice::new(&bytes), 0, 4);
    let mut decoder = Encoder::new(reader, Context::<()>::new());
    let v = decode_with_compression(&mut decoder, None, |d| d.read_u16()).unwrap();
    assert_eq!(v, 0x0201);
    assert_eq!(decoder.stream.remaining_readable(), 0);
}

#[test]
fn draining_and_discarding_a_stream() {
    let data = [1u8, 2, 3, 4, 5];
    let mut s = Slice::new(&data);
    discard(&mut s, 2).unwrap();
    assert_eq!(s.available(), 3);
    discard(&mut s, 0).unwrap();
    assert_eq!(s.available(), 3);
    assert_eq!(drain(&mut s).unwrap(), vec![3u8, 4, 5]);
    assert_eq!(s.available(), 0);
    assert_eq!(drain(&mut s).unwrap(), Vec::<u8>::new());
    assert!(matches!(discard(&mut s, 1), Err(EncodingError::UnexpectedEnd)));

    let mut l = SizeLimit::new(Slice::new(&data), 0, 2);
    assert_eq!(drain(&mut l).unwrap(), vec![1u8, 2]);
}
