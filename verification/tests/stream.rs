use expectrl::stream::buffer::BufferedReader;
use expectrl::stream::log::{log_line, written_bytes, EmptyStream, LoggedStream};

#[test]
fn log_line_of_text_and_bytes() {
    assert_eq!(log_line("write", b"Hello World\n"), "write: \"Hello World\\n\"\n");
    assert_eq!(log_line("read", b"Hello World\r\n"), "read: \"Hello World\\r\\n\"\n");
    assert_eq!(log_line("read", &[0xff, 1]), "read:(bytes): [255, 1]\n");
    assert_eq!(log_line("write", b""), "write: \"\"\n");
}

#[test]
fn log_lines_of_a_session() {
    let mut log = log_line("write", b"Hello World\n");
    log.push_str(&log_line("read", b"Hello World\r\n"));
    assert_eq!(log, "write: \"Hello World\\n\"\nread: \"Hello World\\r\\n\"\n");
}

#[test]
fn written_bytes_of_vectored_write() {
    let bufs: [&[u8]; 3] = [b"Hello", b"\n", b""];
    assert_eq!(written_bytes(&bufs, 6), b"Hello\n".to_vec());
    assert_eq!(written_bytes(&bufs, 3), b"Hel".to_vec());
    assert_eq!(written_bytes(&bufs, 0), b"".to_vec());
    assert_eq!(written_bytes(&bufs, 100), b"Hello\n".to_vec());
    let split: [&[u8]; 3] = [b"ab", b"cd", b"ef"];
    assert_eq!(written_bytes(&split, 3), b"abc".to_vec());
}

#[test]
fn buffered_reader_serves_kept_bytes_first() {
    let mut r = BufferedReader::new(7u32);
    let mut out = [0u8; 4];
    assert_eq!(r.read_buffered(&mut out), None);
    r.keep_in_buffer(b"hello");
    assert_eq!(r.get_available(), b"hello");
    assert_eq!(r.read_buffered(&mut out), Some(4));
    assert_eq!(&out, b"hell");
    assert_eq!(r.get_available(), b"o");
    let mut out = [9u8; 3];
    assert_eq!(r.read_buffered(&mut out), Some(1));
    assert_eq!(out, [b'o', 9, 9]);
    assert_eq!(r.read_buffered(&mut out), None);
    assert_eq!(*r.get_ref(), 7);
}

#[test]
fn buffered_reader_consume() {
    let mut r = BufferedReader::new(());
    r.keep_in_buffer(b"abc");
    r.keep_in_buffer(b"def");
    r.consume_available(2);
    assert_eq!(r.get_available(), b"cdef");
    let (_, rest) = r.into_parts();
    assert_eq!(rest, b"cdef".to_vec());
}

#[test]
fn logged_stream_parts() {
    let s = LoggedStream::new(1u8, Vec::<u8>::new());
    assert_eq!(*s.get_ref(), 1);
    let (stream, logger) = s.into_parts();
    assert_eq!(stream, 1);
    assert!(logger.is_empty());
}

#[test]
fn empty_stream_reads_and_writes_nothing() {
    let mut e = EmptyStream;
    assert_eq!(e.write(b"abc"), 0);
    let mut buf = [5u8; 2];
    assert_eq!(e.read(&mut buf), 0);
    assert_eq!(buf, [5, 5]);
}

#[test]
fn buffered_reader_mutable_parts() {
    let mut r = BufferedReader::new(1u8);
    r.keep_in_buffer(b"xyz");
    *r.get_mut() = 2;
    assert_eq!(*r.get_ref(), 2);
    assert_eq!(r.get_available(), b"xyz");
    r.buffer_mut().remove(0);
    assert_eq!(r.get_available(), b"yz");
}

#[test]
fn logged_stream_mutable_parts() {
    let mut s = LoggedStream::new(1u8, Vec::<u8>::new());
    *s.get_mut() = 3;
    s.logger_mut().extend_from_slice(b"line\n");
    let (stream, logger) = s.into_parts();
    assert_eq!(stream, 3);
    assert_eq!(logger, b"line\n".to_vec());
}

#[test]
fn log_line_of_bytes_in_decimal() {
    assert_eq!(log_line("read", &[0, 9, 10, 99, 100, 200]), "read:(bytes): [0, 9, 10, 99, 100, 200]\n");
    assert_eq!(log_line("read", &[255]), "read:(bytes): [255]\n");
}
