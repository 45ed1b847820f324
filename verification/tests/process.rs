use expectrl::process::words_of_spans;
use expectrl::process::tokenize_command;

#[test]
fn test_tokenize_command() {
    let res = tokenize_command("prog arg1 arg2");
    assert_eq!(vec!["prog", "arg1", "arg2"], res);

    let res = tokenize_command("prog -k=v");
    assert_eq!(vec!["prog", "-k=v"], res);

    let res = tokenize_command("prog 'my text'");
    assert_eq!(vec!["prog", "'my text'"], res);

    let res = tokenize_command(r#"prog "my text""#);
    assert_eq!(vec!["prog", r#""my text""#], res);
}

#[test]
fn tokenize_empty_and_spaces() {
    assert!(tokenize_command("").is_empty());
    assert!(tokenize_command("   ").is_empty());
    assert_eq!(tokenize_command("  ls   -la  "), vec!["ls", "-la"]);
    assert_eq!(tokenize_command("écho ñ"), vec!["écho", "ñ"]);
}

#[test]
fn words_of_spans_cuts_the_text() {
    let words = words_of_spans("écho 'a b' x", &vec![(0, 5), (6, 11), (12, 13)]);
    assert_eq!(words, vec!["écho", "'a b'", "x"]);
    assert!(words_of_spans("abc", &vec![]).is_empty());
}
