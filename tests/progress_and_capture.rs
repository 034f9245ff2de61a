use podcopy::progress::{ProgressError, ProgressTracker};
use podcopy::pump::pump;
use podcopy::sink::{capture_chunks, CapturedSink};
use podcopy::source::MemorySource;

#[test]
fn tracker_offset_is_sum_of_reads() {
    let mut t = ProgressTracker::new(10);
    assert_eq!(t.record_read(3), Ok(Some(3)));
    assert_eq!(t.record_read(4), Ok(Some(7)));
    assert_eq!(t.record_read(3), Ok(Some(10)));
    assert_eq!(t.offset(), 10);
    assert!(t.is_complete());
}

#[test]
fn tracker_eof_read_reports_nothing() {
    let mut t = ProgressTracker::new(5);
    assert_eq!(t.record_read(5), Ok(Some(5)));
    assert_eq!(t.record_read(0), Ok(None));
    assert_eq!(t.offset(), 5);
}

#[test]
fn tracker_refuses_read_past_total() {
    let mut t = ProgressTracker::new(4);
    assert_eq!(t.record_read(3), Ok(Some(3)));
    assert_eq!(t.record_read(2), Err(ProgressError::PastEnd));
    assert_eq!(t.offset(), 3);
    assert_eq!(t.total(), 4);
}

#[test]
fn tracker_empty_source() {
    let mut t = ProgressTracker::new(0);
    assert!(t.is_complete());
    assert_eq!(t.record_read(0), Ok(None));
    assert_eq!(t.record_read(1), Err(ProgressError::PastEnd));
}

#[test]
fn sink_keeps_chunks_in_order() {
    let mut s = CapturedSink::new();
    assert!(s.is_empty());
    assert_eq!(s.write(b"hello "), 6);
    assert_eq!(s.write(b""), 0);
    assert_eq!(s.write(b"world"), 5);
    assert_eq!(s.snapshot(), b"hello world".to_vec());
    assert_eq!(s.text(), "hello world");
    assert_eq!(s.len(), 11);
}

#[test]
fn sink_marks_chunk_that_is_not_utf8() {
    let mut s = CapturedSink::new();
    s.write(b"ok ");
    s.write(&[0xff, 0xfe]);
    s.write(" caf\u{e9}".as_bytes());
    assert_eq!(s.text(), "ok [not utf8] caf\u{e9}");
    assert_eq!(s.snapshot(), vec![b'o', b'k', b' ', 0xff, 0xfe, b' ', b'c', b'a', b'f', 0xc3, 0xa9]);
}

#[test]
fn capture_chunks_concatenates() {
    let chunks = vec![b"ab".to_vec(), Vec::new(), b"cde".to_vec(), b"f".to_vec()];
    let s = capture_chunks(&chunks);
    assert_eq!(s.snapshot(), b"abcdef".to_vec());
    assert_eq!(s.text(), "abcdef");
}

#[test]
fn memory_source_reads_in_order() {
    let mut src = MemorySource::new(b"abcdefg".to_vec());
    assert_eq!(src.total(), 7);
    let c = src.read(3);
    assert_eq!(c.bytes, b"abc".to_vec());
    assert_eq!(c.progress, Some(3));
    let c = src.read(10);
    assert_eq!(c.bytes, b"defg".to_vec());
    assert_eq!(c.progress, Some(7));
    let c = src.read(10);
    assert!(c.bytes.is_empty());
    assert_eq!(c.progress, None);
    assert_eq!(src.offset(), 7);
}

#[test]
fn pump_copies_every_byte_in_order() {
    let data: Vec<u8> = (0..10_000u32).map(|i| (i % 251) as u8).collect();
    let mut src = MemorySource::new(data.clone());
    let mut dst = CapturedSink::new();
    let r = pump(&mut src, &mut dst, 333);
    assert_eq!(r.copied, 10_000);
    assert_eq!(r.last_progress, Some(10_000));
    assert_eq!(dst.snapshot(), data);
    assert_eq!(src.offset(), 10_000);
}

#[test]
fn pump_of_empty_source_moves_nothing() {
    let mut src = MemorySource::new(Vec::new());
    let mut dst = CapturedSink::new();
    let r = pump(&mut src, &mut dst, 16);
    assert_eq!(r.copied, 0);
    assert_eq!(r.last_progress, None);
    assert!(dst.is_empty());
}

#[test]
fn pump_resumes_after_partial_read() {
    let mut src = MemorySource::new(b"0123456789".to_vec());
    let first = src.read(4);
    assert_eq!(first.bytes, b"0123".to_vec());
    let mut dst = CapturedSink::new();
    let r = pump(&mut src, &mut dst, 4);
    assert_eq!(r.copied, 6);
    assert_eq!(dst.snapshot(), b"456789".to_vec());
}

#[test]
fn append_decoded_uses_given_decoding() {
    let mut s = CapturedSink::new();
    s.append_decoded(b"abc", Some("abc"));
    s.append_decoded(&[0xc3], None);
    assert_eq!(s.text(), "abc[not utf8]");
    assert_eq!(s.snapshot(), vec![b'a', b'b', b'c', 0xc3]);
}
