use ende::io::Capacity;
use ende::io::Read;
use ende::io::Seek;
use ende::io::SeekFrom;
use ende::io::SizeLimit;
use ende::io::SizeTrack;
use ende::io::Slice;
use ende::io::SliceMut;
use ende::io::Write;
use ende::io::Zero;
use ende::Context;
use ende::Encoder;
use ende::EncodingError;

#[test]
fn a_slice_is_read_to_its_end_and_no_further() {
    let data = [1u8, 2, 3, 4, 5];
    let mut r = Slice::new(&data);
    let mut two = [0u8; 2];
    r.read(&mut two).unwrap();
    assert_eq!(two, [1, 2]);
    let mut four = [9u8; 4];
    assert!(matches!(r.read(&mut four), Err(EncodingError::UnexpectedEnd)));
    assert_eq!(r.available(), 3);
    let mut three = [0u8; 3];
    r.read(&mut three).unwrap();
    assert_eq!(three, [3, 4, 5]);
    assert_eq!(r.available(), 0);
    let mut none = [0u8; 0];
    r.read(&mut none).unwrap();
}

#[test]
fn a_slice_writer_takes_what_fits() {
    let mut buf = [0u8; 4];
    let mut w = SliceMut::new(&mut buf);
    w.write(&[1, 2, 3]).unwrap();
    assert!(matches!(w.write(&[4, 5]), Err(EncodingError::UnexpectedEnd)));
    assert_eq!(w.len_written(), 3);
    w.write(&[4]).unwrap();
    assert!(matches!(w.write(&[5]), Err(EncodingError::UnexpectedEnd)));
    w.write(&[]).unwrap();
    assert_eq!(buf, [1, 2, 3, 4]);
}

#[test]
fn an_encoder_over_a_slice_writer_fails_when_full() {
    let mut buf = [0u8; 5];
    let mut encoder = Encoder::new(SliceMut::new(&mut buf), Context::<()>::new());
    encoder.write_u32(0x04030201).unwrap();
    assert!(matches!(encoder.write_u16(7), Err(EncodingError::UnexpectedEnd)));
    encoder.write_u8(5).unwrap();
    assert_eq!(buf, [1, 2, 3, 4, 5]);
}

#[test]
fn the_zero_sink_takes_everything() {
    let mut z = Zero::new();
    z.write(&[0u8; 1000]).unwrap();
    z.write(&[]).unwrap();
}

#[test]
fn size_track_counts_what_passes() {
    let mut t = SizeTrack::new(Vec::new());
    assert_eq!(t.size_written(), 0);
    t.write(&[1, 2, 3]).unwrap();
    t.write(&[4]).unwrap();
    assert_eq!(t.size_written(), 4);
    assert_eq!(t.into_inner(), vec![1u8, 2, 3, 4]);

    let mut buf = [0u8; 2];
    let mut t = SizeTrack::new(SliceMut::new(&mut buf));
    t.write(&[1, 2]).unwrap();
    assert!(t.write(&[3]).is_err());
    assert_eq!(t.size_written(), 2);
}

#[test]
fn size_track_measures_an_encoding() {
    let mut meter = Encoder::new(SizeTrack::new(Zero::new()), Context::<()>::new());
    meter.write_str("héllo").unwrap();
    meter.write_u16(1).unwrap();
    assert_eq!(meter.finish().0.size_written(), 8 + 6 + 2);
}

#[test]
fn size_limit_bounds_reads() {
    let data = [1u8, 2, 3, 4, 5];
    let mut l = SizeLimit::new(Slice::new(&data), 0, 3);
    assert_eq!(l.remaining_readable(), 3);
    let mut two = [0u8; 2];
    l.read(&mut two).unwrap();
    assert_eq!(l.remaining_readable(), 1);
    assert!(matches!(l.read(&mut two), Err(EncodingError::UnexpectedEnd)));
    assert_eq!(l.remaining_readable(), 1);
    let mut one = [0u8; 1];
    l.read(&mut one).unwrap();
    assert_eq!(one, [3]);
    assert_eq!(l.remaining_readable(), 0);
    assert!(matches!(l.read(&mut one), Err(EncodingError::UnexpectedEnd)));
    assert_eq!(l.into_inner().available(), 2);
}

#[test]
fn size_limit_bounds_writes() {
    let mut l = SizeLimit::new(Vec::new(), 3, 0);
    l.write(&[1, 2]).unwrap();
    assert!(matches!(l.write(&[3, 4]), Err(EncodingError::UnexpectedEnd)));
    assert_eq!(l.remaining_writable(), 1);
    l.write(&[3]).unwrap();
    assert_eq!(l.into_inner(), vec![1u8, 2, 3]);
}

#[test]
fn a_stream_can_be_used_through_a_reference() {
    let mut out: Vec<u8> = Vec::new();
    {
        let mut encoder = Encoder::new(&mut out, Context::<()>::new());
        encoder.write_u16(0x0201).unwrap();
    }
    assert_eq!(out, vec![1u8, 2]);
    let mut source = Slice::new(&out);
    {
        let mut decoder = Encoder::new(&mut source, Context::<()>::new());
        assert_eq!(decoder.read_u8().unwrap(), 1);
    }
    assert_eq!(source.available(), 1);
    {
        let mut decoder = Encoder::new(&mut source, Context::<()>::new());
        assert_eq!(decoder.peek_bytes(1).unwrap(), &[2u8]);
        assert_eq!(decoder.seek(SeekFrom::Start(0)).unwrap(), 0);
        assert_eq!(decoder.borrow_byte_slice(2).unwrap(), &[1u8, 2]);
    }
    assert_eq!(source.available(), 0);
}

#[test]
fn a_slice_seeks_within_its_data() {
    let data = [0u8; 10];
    let mut s = Slice::new(&data);
    assert_eq!(s.seek(SeekFrom::Start(4)).unwrap(), 4);
    assert_eq!(s.seek(SeekFrom::Current(3)).unwrap(), 7);
    assert_eq!(s.seek(SeekFrom::Current(-7)).unwrap(), 0);
    assert_eq!(s.seek(SeekFrom::End(-2)).unwrap(), 8);
    assert_eq!(s.seek(SeekFrom::End(0)).unwrap(), 10);
    assert_eq!(s.seek(SeekFrom::position()).unwrap(), 10);
    assert!(s.seek(SeekFrom::Start(11)).is_err());
    assert!(s.seek(SeekFrom::Current(1)).is_err());
    assert!(s.seek(SeekFrom::Current(-11)).is_err());
    assert!(s.seek(SeekFrom::End(1)).is_err());
    assert!(s.seek(SeekFrom::End(isize::MIN)).is_err());
    assert_eq!(s.seek(SeekFrom::position()).unwrap(), 10);
}

#[test]
fn with_seek_comes_back() {
    let data = [10u8, 11, 12, 13, 14, 15, 16, 17];
    let mut d = Encoder::new(Slice::new(&data), Context::<()>::new());
    assert_eq!(d.read_u8().unwrap(), 10);
    let far = d.with_seek(|e| e.read_u8(), SeekFrom::Start(6)).unwrap();
    assert_eq!(far, 16);
    // the body read one byte at the target; the way back is the way there
    assert_eq!(d.stream_position().unwrap(), 2);
    let near = d.with_seek(|e| e.peek_bytes(1).map(|b| b[0]), SeekFrom::Current(-2)).unwrap();
    assert_eq!(near, 10);
    assert_eq!(d.stream_position().unwrap(), 2);
    assert_eq!(d.read_u8().unwrap(), 12);
}

#[test]
fn with_seek_does_not_run_the_body_where_the_seek_fails() {
    let data = [1u8, 2, 3];
    let mut d = Encoder::new(Slice::new(&data), Context::<()>::new());
    let mut ran = false;
    let r = d.with_seek(
        |e| {
            ran = true;
            e.read_u8()
        },
        SeekFrom::Start(9),
    );
    assert!(r.is_err());
    assert!(!ran);
    assert_eq!(d.stream_position().unwrap(), 0);
}

#[test]
fn with_seek_keeps_the_failure_of_the_body() {
    let data = [1u8, 2, 3];
    let mut d = Encoder::new(Slice::new(&data), Context::<()>::new());
    let r = d.with_seek(|e| e.read_u32(), SeekFrom::Start(1));
    assert!(matches!(r, Err(EncodingError::UnexpectedEnd)));
    assert_eq!(d.stream_position().unwrap(), 0);
}

#[test]
fn shift_moves_both_ways() {
    let data = [0u8; 10];
    let mut d = Encoder::new(Slice::new(&data), Context::<()>::new());
    d.shift(true, 7).unwrap();
    assert_eq!(d.stream_position().unwrap(), 7);
    d.shift(false, 5).unwrap();
    assert_eq!(d.seek(SeekFrom::position()).unwrap(), 2);
    assert!(d.shift(false, 3).is_err());
    assert!(d.shift(true, usize::MAX).is_err());
}

#[test]
fn capacities_can_be_told_apart() {
    assert!(matches!(Capacity::Unlimited, Capacity::Unlimited));
}

#[test]
fn swapping_the_stream_hands_back_the_old_one() {
    let mut encoder = Encoder::new(vec![1u8], Context::<()>::new());
    let old = encoder.swap_stream(vec![2u8, 3]);
    assert_eq!(old, vec![1u8]);
    encoder.write_byte(4).unwrap();
    assert_eq!(encoder.finish().0, vec![2u8, 3, 4]);
}

#[test]
fn a_slice_shows_what_is_left_and_a_budget_does_not() {
    let data = [1u8, 2, 3, 4];
    let mut s = Slice::new(&data);
    assert_eq!(s.ahead(), Some(&data[..]));
    let mut two = [0u8; 2];
    s.read(&mut two).unwrap();
    assert_eq!(s.ahead(), Some(&data[2..]));
    assert_eq!((&mut s).ahead(), Some(&data[2..]));
    assert_eq!(s.available(), 2);

    let l = SizeLimit::new(Slice::new(&data), 0, 3);
    assert_eq!(l.ahead(), None);
}
