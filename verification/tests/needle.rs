use expectrl::flatten_captures;
use expectrl::{Any, Eof, Match, NBytes, Needle, Regex};

#[test]
fn test_regex() {
    assert_eq!(
        Regex("[0-9]+").check(b"+012345", false).unwrap(),
        vec![Match::new(1, 7)]
    );
    assert_eq!(
        Regex(r"\w+").check(b"What's Up Boys", false).unwrap(),
        vec![
            Match::new(0, 4),
            Match::new(5, 6),
            Match::new(7, 9),
            Match::new(10, 14)
        ]
    );
    assert_eq!(
        Regex(r"((?:\w|')+)")
            .check(b"What's Up Boys", false)
            .unwrap(),
        vec![
            Match::new(0, 6),
            Match::new(0, 6),
            Match::new(7, 9),
            Match::new(7, 9),
            Match::new(10, 14),
            Match::new(10, 14)
        ]
    );
    assert_eq!(
        Regex(r"(\w+)=(\w+)").check(b"asd=123", false).unwrap(),
        vec![Match::new(0, 7), Match::new(0, 3), Match::new(4, 7)]
    );
}

#[test]
fn test_eof() {
    assert_eq!(Eof.check(b"qwe", true).unwrap(), vec![Match::new(0, 3)]);
    assert_eq!(Eof.check(b"qwe", false).unwrap(), vec![]);
}

#[test]
fn test_n_bytes() {
    assert_eq!(
        NBytes(1).check(b"qwe", false).unwrap(),
        vec![Match::new(0, 1)]
    );
    assert_eq!(
        NBytes(0).check(b"qwe", false).unwrap(),
        vec![Match::new(0, 0)]
    );
    assert_eq!(NBytes(10).check(b"qwe", false).unwrap(), vec![]);
}

#[test]
fn test_str() {
    assert_eq!(
        "wer".check(b"qwerty", false).unwrap(),
        vec![Match::new(1, 4)]
    );
    assert_eq!("123".check(b"qwerty", false).unwrap(), vec![]);
    assert_eq!("".check(b"qwerty", false).unwrap(), vec![Match::new(0, 0)]);
}

#[test]
fn test_bytes() {
    assert_eq!(
        b"wer".check(b"qwerty", false).unwrap(),
        vec![Match::new(1, 4)]
    );
    assert_eq!(b"123".check(b"qwerty", false).unwrap(), vec![]);
    assert_eq!(b"".check(b"qwerty", false).unwrap(), vec![Match::new(0, 0)]);
}

#[allow(clippy::needless_borrow)]
#[test]
fn test_bytes_ref() {
    assert_eq!(
        (&[b'q', b'w', b'e']).check(b"qwerty", false).unwrap(),
        vec![Match::new(0, 3)]
    );
    assert_eq!(
        (&[b'1', b'2', b'3']).check(b"qwerty", false).unwrap(),
        vec![]
    );
    assert_eq!(
        (&[]).check(b"qwerty", false).unwrap(),
        vec![Match::new(0, 0)]
    );
}

#[test]
fn test_byte() {
    assert_eq!(
        (b'3').check(b"1234", false).unwrap(),
        vec![Match::new(2, 3)]
    );
    assert_eq!((b'3').check(b"1234", true).unwrap(), vec![Match::new(2, 3)]);
}

#[test]
fn test_char() {
    for eof in [false, true] {
        assert_eq!(
            ('😘').check("😁😄😅😓😠😘😌".as_bytes(), eof).unwrap(),
            vec![Match::new(20, 24)]
        );
    }
}

#[test]
fn test_any() {
    assert_eq!(
        Any::<Vec<Box<dyn Needle>>>(vec![Box::new("we"), Box::new(NBytes(3))])
            .check(b"qwerty", false)
            .unwrap(),
        vec![Match::new(1, 3)]
    );
    assert_eq!(
        Any::boxed(vec![Box::new("123"), Box::new(NBytes(100))])
            .check(b"qwerty", false)
            .unwrap(),
        vec![],
    );
    assert_eq!(
        Any(["123", "234", "rty"]).check(b"qwerty", false).unwrap(),
        vec![Match::new(3, 6)]
    );
    assert_eq!(
        Any(&["123", "234", "rty"][..])
            .check(b"qwerty", false)
            .unwrap(),
        vec![Match::new(3, 6)]
    );
    assert_eq!(
        Any(&["123", "234", "rty"]).check(b"qwerty", false).unwrap(),
        vec![Match::new(3, 6)]
    );
}

#[test]
fn bytes_needle_finds_leftmost_occurrence() {
    assert_eq!(b"ab".check(b"xxabab", false).unwrap(), vec![Match::new(2, 4)]);
    assert_eq!("ab".check(b"ab", true).unwrap(), vec![Match::new(0, 2)]);
    assert_eq!("abc".check(b"ab", false).unwrap(), vec![]);
}

#[test]
fn empty_needle_on_empty_buffer_finds_nothing() {
    assert_eq!("".check(b"", false).unwrap(), vec![]);
    assert_eq!(b"".check(b"", true).unwrap(), vec![]);
}

#[test]
fn eof_needle_on_empty_buffer() {
    assert_eq!(Eof.check(b"", true).unwrap(), vec![Match::new(0, 0)]);
    assert_eq!(Eof.check(b"", false).unwrap(), vec![]);
}

#[test]
fn string_needle() {
    assert_eq!(
        String::from("rty").check(b"qwerty", false).unwrap(),
        vec![Match::new(3, 6)]
    );
}

#[test]
fn char_needles_of_each_width() {
    assert_eq!(('q').check(b"xq", false).unwrap(), vec![Match::new(1, 2)]);
    assert_eq!(('é').check("aé".as_bytes(), false).unwrap(), vec![Match::new(1, 3)]);
    assert_eq!(('€').check("a€".as_bytes(), false).unwrap(), vec![Match::new(1, 4)]);
    assert_eq!(('é').check(b"e", false).unwrap(), vec![]);
}

#[test]
fn invalid_regex_is_a_parsing_error() {
    assert!(matches!(
        Regex("(").check(b"(", false),
        Err(expectrl::Error::RegexParsing)
    ));
    assert!(matches!(
        Regex(String::from("[")).check(b"[", false),
        Err(expectrl::Error::RegexParsing)
    ));
}

#[test]
fn regex_optional_group_that_did_not_match_is_left_out() {
    assert_eq!(
        Regex(r"a(b)?(c)").check(b"ac", false).unwrap(),
        vec![Match::new(0, 2), Match::new(1, 2)]
    );
}

#[test]
fn any_propagates_an_error_met_first() {
    let needles: Vec<Box<dyn Needle>> = vec![Box::new(Regex("(")), Box::new("q")];
    assert!(matches!(
        Any(needles).check(b"q", false),
        Err(expectrl::Error::RegexParsing)
    ));
    let needles: Vec<Box<dyn Needle>> = vec![Box::new("q"), Box::new(Regex("("))];
    assert_eq!(Any(needles).check(b"q", false).unwrap(), vec![Match::new(0, 1)]);
}

#[test]
fn match_accessors() {
    let m = Match::new(3, 7);
    assert_eq!(m.start(), 3);
    assert_eq!(m.end(), 7);
}

#[test]
fn any_error_before_a_match_wins() {
    let needles: Vec<Box<dyn Needle>> = vec![Box::new("x"), Box::new(Regex("(")), Box::new("q")];
    assert!(Any(needles).check(b"q", false).is_err());
    let needles: Vec<Box<dyn Needle>> = vec![Box::new("x"), Box::new("y")];
    assert_eq!(Any(needles).check(b"q", false).unwrap(), vec![]);
}

#[test]
fn flatten_captures_lists_groups_in_order() {
    let caps = vec![vec![Some((0, 4)), None, Some((1, 2))], vec![], vec![Some((5, 6))]];
    assert_eq!(
        flatten_captures(&caps),
        vec![Match::new(0, 4), Match::new(1, 2), Match::new(5, 6)]
    );
}
