use expectrl::Error;

#[test]
fn error_messages() {
    assert_eq!(Error::CommandParsing.to_string(), "Can't parse a command string, please check it out");
    assert_eq!(Error::RegexParsing.to_string(), "Can't parse a regex expression");
    assert_eq!(Error::ExpectTimeout.to_string(), "Reached a timeout for expect type of command");
    assert_eq!(Error::Eof.to_string(), "EOF was reached; the read may successed later");
    assert_eq!(
        Error::unknown("failed to call isatty", "EBADF").to_string(),
        "Unexpected error; failed to call isatty; EBADF"
    );
}

#[test]
fn io_error_message() {
    let e: Error = std::io::Error::new(std::io::ErrorKind::Other, "broken pipe here").into();
    assert_eq!(e.to_string(), "IO error broken pipe here");
}

#[test]
fn unknown_keeps_both_messages() {
    match Error::unknown("a", "b") {
        Error::Other { message, err } => {
            assert_eq!(message, "a");
            assert_eq!(err, "b");
        }
        _ => panic!("unexpected variant"),
    }
}
