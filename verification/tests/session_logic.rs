use expectrl::session::{check_buffer, expect_lazy_step, expect_step, is_matched_buffer, ExpectStep};
use expectrl::{Eof, Error, NBytes, Regex};

#[test]
fn check_takes_matched_bytes_out() {
    let mut buf = b"Hello World".to_vec();
    let found = check_buffer(&mut buf, "Hello", false).unwrap();
    assert_eq!(found.get(0), Some(b"Hello".as_ref()));
    assert_eq!(buf, b" World".to_vec());
}

#[test]
fn check_without_match() {
    let mut buf = b"Hello".to_vec();
    let found = check_buffer(&mut buf, "World", false).unwrap();
    assert!(found.is_empty());
    assert_eq!(buf, b"Hello".to_vec());
    assert!(matches!(check_buffer(&mut buf, "World", true), Err(Error::Eof)));
    assert_eq!(buf, b"Hello".to_vec());
}

#[test]
fn check_eof_takes_everything() {
    let mut buf = b"'Hello World'\r\n".to_vec();
    let found = check_buffer(&mut buf, Eof, true).unwrap();
    assert_eq!(found.get(0), Some(b"'Hello World'\r\n".as_ref()));
    assert!(buf.is_empty());
}

#[test]
fn check_regex_keeps_the_rest() {
    let mut buf = b"Hello World\r\n".to_vec();
    let found = check_buffer(&mut buf, Regex("lo.*"), false).unwrap();
    assert_eq!(found.before(), b"Hel");
    assert_eq!(found.get(0), Some(b"lo World\r".as_ref()));
    assert_eq!(buf, b"\n".to_vec());
}

#[test]
fn is_matched_leaves_bytes() {
    assert_eq!(is_matched_buffer(b"Hello World", "World", false).unwrap(), true);
    assert_eq!(is_matched_buffer(b"Hello", "World", false).unwrap(), false);
    assert!(matches!(is_matched_buffer(b"Hello", "World", true), Err(Error::Eof)));
    assert!(matches!(is_matched_buffer(b"", Regex("("), false), Err(Error::RegexParsing)));
}

#[test]
fn expect_lazy_steps_one_byte_at_a_time() {
    let mut available = b"123abc".to_vec();
    let mut checked = 0;
    let found = loop {
        match expect_lazy_step(&mut available, checked, false, Regex(r"\d+")).unwrap() {
            ExpectStep::Found(c) => break c,
            ExpectStep::Continue(n) => checked = n,
        }
    };
    // the lazy byte by byte search matches the first digit only
    assert_eq!(found.get(0), Some(b"1".as_ref()));
    assert_eq!(available, b"23abc".to_vec());
}

#[test]
fn expect_lazy_step_reports_progress_and_eof() {
    let mut available = b"ab".to_vec();
    assert!(matches!(
        expect_lazy_step(&mut available, 0, false, NBytes(2)).unwrap(),
        ExpectStep::Continue(1)
    ));
    match expect_lazy_step(&mut available, 1, false, NBytes(2)).unwrap() {
        ExpectStep::Found(c) => assert_eq!(c.as_bytes(), b"ab"),
        ExpectStep::Continue(_) => panic!("expected a match"),
    }
    assert!(available.is_empty());
    assert!(matches!(expect_lazy_step(&mut available, 0, true, "x"), Err(Error::Eof)));
    assert!(matches!(
        expect_lazy_step(&mut available, 0, false, "x").unwrap(),
        ExpectStep::Continue(0)
    ));
}

#[test]
fn read_after_check_gets_the_rest() {
    let mut buf = b"Hello World".to_vec();
    let found = check_buffer(&mut buf, "Hello", false).unwrap();
    let mut all = found.as_bytes().to_vec();
    all.extend_from_slice(&buf);
    assert_eq!(all, b"Hello World".to_vec());
}

#[test]
fn single_match_bytes_are_before_then_match() {
    let mut buf = b"abc hello xyz".to_vec();
    let found = check_buffer(&mut buf, "hello", false).unwrap();
    let mut joined = found.before().to_vec();
    joined.extend_from_slice(found.get(0).unwrap());
    assert_eq!(joined, found.as_bytes().to_vec());
    assert_eq!(found.as_bytes(), b"abc hello");
}

#[test]
fn expect_step_is_greedy() {
    let mut available = b"123abc".to_vec();
    match expect_step(&mut available, false, Regex(r"\d+")).unwrap() {
        ExpectStep::Found(c) => assert_eq!(c.get(0), Some(b"123".as_ref())),
        ExpectStep::Continue(_) => panic!("expected a match"),
    }
    assert_eq!(available, b"abc".to_vec());

    let mut available = b"Hello World\r\n".to_vec();
    match expect_step(&mut available, false, Regex("lo.*")).unwrap() {
        ExpectStep::Found(c) => {
            assert_eq!(c.before(), b"Hel");
            assert_eq!(c.get(0), Some(b"lo World\r".as_ref()));
        }
        ExpectStep::Continue(_) => panic!("expected a match"),
    }
    assert_eq!(available, b"\n".to_vec());
}

#[test]
fn expect_step_without_match() {
    let mut available = b"ab".to_vec();
    assert!(matches!(expect_step(&mut available, false, "x").unwrap(), ExpectStep::Continue(2)));
    assert_eq!(available, b"ab".to_vec());
    assert!(matches!(expect_step(&mut available, true, "x"), Err(Error::Eof)));
    assert!(matches!(expect_step(&mut available, false, Regex("(")), Err(Error::RegexParsing)));
    assert_eq!(available, b"ab".to_vec());
}
