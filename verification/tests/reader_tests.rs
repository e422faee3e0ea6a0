use payload_dumper::reader::{SeekFrom, SliceReader};
use payload_dumper::ReadSeek;

#[test]
fn read_advances_and_stops_at_end() {
    let mut r = SliceReader::new(vec![1, 2, 3, 4, 5]);
    assert_eq!(r.len(), 5);
    assert_eq!(r.read(2), vec![1, 2]);
    assert_eq!(r.stream_position(), 2);
    assert_eq!(r.read(10), vec![3, 4, 5]);
    assert_eq!(r.stream_position(), 5);
    assert_eq!(r.read(1), Vec::<u8>::new());
}

#[test]
fn read_exact_fails_without_moving() {
    let mut r = SliceReader::new(vec![1, 2, 3]);
    assert_eq!(r.read_exact(2), Ok(vec![1, 2]));
    assert_eq!(r.read_exact(2), Err(()));
    assert_eq!(r.stream_position(), 2);
    assert_eq!(r.read_exact(1), Ok(vec![3]));
}

#[test]
fn seek_from_start_current_end() {
    let mut r = SliceReader::new(vec![0; 10]);
    assert_eq!(r.seek(SeekFrom::Start(7)), Ok(7));
    assert_eq!(r.seek(SeekFrom::Current(-3)), Ok(4));
    assert_eq!(r.seek(SeekFrom::Current(2)), Ok(6));
    assert_eq!(r.seek(SeekFrom::End(-10)), Ok(0));
    assert_eq!(r.seek(SeekFrom::End(0)), Ok(10));
}

#[test]
fn seek_past_end_is_an_error() {
    let mut r = SliceReader::new(vec![0; 4]);
    assert_eq!(r.seek(SeekFrom::Start(5)), Err(()));
    assert_eq!(r.stream_position(), 0);
    assert_eq!(r.seek(SeekFrom::End(1)), Err(()));
    assert_eq!(r.seek(SeekFrom::Current(5)), Err(()));
}

#[test]
fn negative_seeks_saturate_at_zero() {
    let mut r = SliceReader::new(vec![0; 4]);
    assert_eq!(r.seek(SeekFrom::Current(-100)), Ok(0));
    assert_eq!(r.seek(SeekFrom::End(-100)), Ok(0));
}
