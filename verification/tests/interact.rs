use expectrl::interact::actions::lookup::Lookup;
use expectrl::interact::{
    check_input, check_input_round, check_output, check_output_round, contains_in_bytes,
    escape_position, interact_step, InputCheck,
    InteractAction, InteractEvent, Match,
};
use expectrl::{Error, NBytes, Needle, Regex};

#[test]
fn contains_in_bytes_test() {
    assert_eq!(contains_in_bytes(b"123", b"123"), Match::Yes(3));
    assert_eq!(contains_in_bytes(b"12345", b"123"), Match::Yes(3));
    assert_eq!(contains_in_bytes(b"1", b"123"), Match::MaybeLater);
    assert_eq!(contains_in_bytes(b"12", b"123"), Match::MaybeLater);
    assert_eq!(contains_in_bytes(b"4", b"123"), Match::No);
    assert_eq!(contains_in_bytes(b"qwe", b"w"), Match::Yes(2));
    assert_eq!(contains_in_bytes(b"qwe", b"j"), Match::No);
}

#[test]
fn contains_in_bytes_short_haystack_is_a_prefix_check() {
    assert_eq!(contains_in_bytes(b"x1", b"123"), Match::No);
    assert_eq!(contains_in_bytes(b"4512", b"123"), Match::No);
    assert_eq!(contains_in_bytes(b"45123", b"123"), Match::Yes(5));
}

#[test]
fn escape_position_finds_first_escape() {
    assert_eq!(escape_position(b"ab\x1dcd\x1d", 29), Some(2));
    assert_eq!(escape_position(b"abcd", 29), None);
    assert_eq!(escape_position(b"", 29), None);
}

#[test]
fn lookup_keeps_bytes_until_matched() {
    let mut lookup = Lookup::new();
    assert!(lookup.on(b"ye", false, "yes").unwrap().is_none());
    let found = lookup.on(b"s!", false, "yes").unwrap().unwrap();
    assert_eq!(found.as_bytes(), b"yes");
    assert_eq!(found.get(0), Some(b"yes".as_ref()));
    // the byte after the match is kept
    let found = lookup.on(b"", false, NBytes(1)).unwrap().unwrap();
    assert_eq!(found.as_bytes(), b"!");
}

#[test]
fn lookup_clear_forgets_bytes() {
    let mut lookup = Lookup::default();
    assert!(lookup.on(b"no", false, "nope").unwrap().is_none());
    lookup.clear();
    assert!(lookup.on(b"pe", false, "nope").unwrap().is_none());
    assert!(lookup.on(b"", false, NBytes(3)).unwrap().is_none());
}

#[test]
fn interact_step_sends_input_up_to_escape() {
    let event = InteractEvent::Input { bytes: b"ls\x1d -la".to_vec(), eof: false, exit: false };
    match interact_step(event, 29) {
        InteractAction::SendAndStop(sent) => assert_eq!(sent, b"ls".to_vec()),
        other => panic!("unexpected {:?}", other),
    }
    let event = InteractEvent::Input { bytes: b"ls -la".to_vec(), eof: false, exit: false };
    match interact_step(event, 29) {
        InteractAction::SendToProcess(sent) => assert_eq!(sent, b"ls -la".to_vec()),
        other => panic!("unexpected {:?}", other),
    }
    let event = InteractEvent::Input { bytes: b"\x1d".to_vec(), eof: false, exit: false };
    match interact_step(event, 29) {
        InteractAction::SendAndStop(sent) => assert!(sent.is_empty()),
        other => panic!("unexpected {:?}", other),
    }
}

#[test]
fn interact_step_stops_on_eof_and_exit() {
    let event = InteractEvent::Input { bytes: Vec::new(), eof: true, exit: false };
    assert!(matches!(interact_step(event, 29), InteractAction::Stop));
    let event = InteractEvent::Input { bytes: b"abc".to_vec(), eof: false, exit: true };
    assert!(matches!(interact_step(event, 29), InteractAction::Stop));
    let event = InteractEvent::Output { bytes: b"abc".to_vec(), eof: true, exit: false };
    assert!(matches!(interact_step(event, 29), InteractAction::Stop));
    let event = InteractEvent::Output { bytes: b"abc".to_vec(), eof: false, exit: true };
    assert!(matches!(interact_step(event, 29), InteractAction::Stop));
    assert!(matches!(interact_step(InteractEvent::Idle { exit: true }, 29), InteractAction::Stop));
    assert!(matches!(
        interact_step(InteractEvent::Idle { exit: false }, 29),
        InteractAction::Continue
    ));
}

#[test]
fn interact_step_shows_output() {
    let event = InteractEvent::Output { bytes: b"a\x1db".to_vec(), eof: false, exit: false };
    match interact_step(event, 29) {
        InteractAction::ShowToUser(shown) => assert_eq!(shown, b"a\x1db".to_vec()),
        other => panic!("unexpected {:?}", other),
    }
}

#[test]
fn check_output_fires_first_handler_that_finds() {
    let needles: Vec<Box<dyn Needle>> = vec![Box::new("World"), Box::new(Regex("[0-9]+"))];
    let mut buf = b"Hello 123 World!".to_vec();
    let (i, found) = check_output_round(&needles, &mut buf, false).unwrap().unwrap();
    assert_eq!(i, 0);
    assert_eq!(found.get(0), Some(b"World".as_ref()));
    assert_eq!(found.before(), b"Hello 123 ");
    assert_eq!(buf, b"!".to_vec());
    assert!(check_output_round(&needles, &mut buf, false).unwrap().is_none());
    assert_eq!(buf, b"!".to_vec());
}

#[test]
fn check_output_later_handler_and_error() {
    let needles: Vec<Box<dyn Needle>> = vec![Box::new("World"), Box::new(Regex("[0-9]+"))];
    let mut buf = b"ab 42 cd".to_vec();
    let (i, found) = check_output_round(&needles, &mut buf, false).unwrap().unwrap();
    assert_eq!(i, 1);
    assert_eq!(found.get(0), Some(b"42".as_ref()));
    assert_eq!(buf, b" cd".to_vec());

    let bad: Vec<Box<dyn Needle>> = vec![Box::new(Regex("(")), Box::new("cd")];
    let mut buf = b"ab cd".to_vec();
    assert!(matches!(check_output_round(&bad, &mut buf, false), Err(Error::RegexParsing)));
    assert_eq!(buf, b"ab cd".to_vec());
}

#[test]
fn check_input_runs_handlers_in_order() {
    let patterns = vec![String::from("quit"), String::from("help")];
    let mut buf = b"please help".to_vec();
    assert!(matches!(check_input_round(&patterns, &mut buf), InputCheck::Handler(1)));
    assert!(buf.is_empty());

    let mut buf = b"qu".to_vec();
    assert!(matches!(check_input_round(&patterns, &mut buf), InputCheck::Hold));
    assert_eq!(buf, b"qu".to_vec());

    let mut buf = b"quit now".to_vec();
    assert!(matches!(check_input_round(&patterns, &mut buf), InputCheck::Handler(0)));
    assert_eq!(buf, b" now".to_vec());

    let mut buf = b"ls".to_vec();
    match check_input_round(&patterns, &mut buf) {
        InputCheck::Send(sent) => assert_eq!(sent, b"ls".to_vec()),
        other => panic!("unexpected {:?}", other),
    }
    assert!(buf.is_empty());
}

#[test]
fn check_input_skips_empty_patterns() {
    let patterns = vec![String::new()];
    let mut buf = b"abc".to_vec();
    match check_input_round(&patterns, &mut buf) {
        InputCheck::Send(sent) => assert_eq!(sent, b"abc".to_vec()),
        other => panic!("unexpected {:?}", other),
    }
}

#[test]
fn check_output_repeats_rounds_until_none_fires() {
    let needles: Vec<Box<dyn Needle>> = vec![Box::new("ab"), Box::new(Regex("[0-9]+"))];
    let mut buf = b"xab12!".to_vec();
    let (fired, checked) = check_output(&needles, &mut buf, false);
    assert!(checked.is_ok());
    let handlers: Vec<usize> = fired.iter().map(|(i, _)| *i).collect();
    assert_eq!(handlers, vec![0, 1]);
    let mut all: Vec<u8> = Vec::new();
    for (_, found) in &fired {
        all.extend_from_slice(found.as_bytes());
    }
    assert_eq!(all, b"xab12".to_vec());
    assert_eq!(buf, b"!".to_vec());
}

#[test]
fn check_output_rounds_stop_at_an_error() {
    let needles: Vec<Box<dyn Needle>> = vec![Box::new("ab"), Box::new(Regex("("))];
    let mut buf = b"abcd".to_vec();
    let (fired, checked) = check_output(&needles, &mut buf, false);
    assert_eq!(fired.len(), 1);
    assert!(matches!(checked, Err(Error::RegexParsing)));
    assert_eq!(buf, b"cd".to_vec());
}

#[test]
fn check_input_repeats_rounds() {
    let patterns = vec![String::from("quit"), String::from("help")];
    let mut buf = b"help quit now".to_vec();
    let (fired, send) = check_input(&patterns, &mut buf);
    // the first pattern in order wins, wherever it is
    assert_eq!(fired, vec![0]);
    assert_eq!(send, b" now".to_vec());
    assert!(buf.is_empty());

    let mut buf = b"helpqu".to_vec();
    let (fired, send) = check_input(&patterns, &mut buf);
    assert_eq!(fired, vec![1]);
    assert!(send.is_empty());
    assert_eq!(buf, b"qu".to_vec());

    let mut buf = b"help".to_vec();
    let (fired, send) = check_input(&patterns, &mut buf);
    assert_eq!(fired, vec![1]);
    assert!(send.is_empty());
    assert!(buf.is_empty());
}

#[test]
fn interact_step_stops_when_process_exited() {
    assert!(matches!(
        interact_step(InteractEvent::Status { alive: Some(false) }, 29),
        InteractAction::Exited
    ));
    assert!(matches!(
        interact_step(InteractEvent::Status { alive: Some(true) }, 29),
        InteractAction::Continue
    ));
    assert!(matches!(interact_step(InteractEvent::Status { alive: None }, 29), InteractAction::Continue));
}
