use expectrl::ControlCode;
use std::convert::TryFrom;

#[test]
fn control_code_bytes() {
    assert_eq!(u8::from(ControlCode::Null), 0);
    assert_eq!(u8::from(ControlCode::EndOfText), 3);
    assert_eq!(u8::from(ControlCode::GroupSeparator), 29);
    assert_eq!(u8::from(ControlCode::Space), 32);
    assert_eq!(u8::from(ControlCode::Delete), 127);
    assert_eq!(ControlCode::ETX.as_bytes(), &[3]);
    assert_eq!(AsRef::<[u8]>::as_ref(&ControlCode::DEL), &[127]);
}

#[test]
fn control_code_from_char() {
    assert_eq!(ControlCode::try_from('c'), Ok(ControlCode::EndOfText));
    assert_eq!(ControlCode::try_from('C'), Ok(ControlCode::EndOfText));
    assert_eq!(ControlCode::try_from('@'), Ok(ControlCode::Null));
    assert_eq!(ControlCode::try_from('?'), Ok(ControlCode::Delete));
    assert_eq!(ControlCode::try_from(']'), Ok(ControlCode::GroupSeparator));
    assert_eq!(ControlCode::try_from('1'), Err(()));
}

#[test]
fn control_code_from_str() {
    assert_eq!(ControlCode::try_from("^C"), Ok(ControlCode::EndOfText));
    assert_eq!(ControlCode::try_from("^c"), Err(()));
    assert_eq!(ControlCode::try_from("^\\"), Ok(ControlCode::FileSeparator));
    assert_eq!(ControlCode::try_from("^ "), Ok(ControlCode::Space));
    assert_eq!(ControlCode::try_from("^?"), Ok(ControlCode::Delete));
    assert_eq!(ControlCode::try_from("C"), Err(()));
    assert_eq!(ControlCode::try_from("^CC"), Err(()));
    assert_eq!(ControlCode::try_from(""), Err(()));
}

#[test]
fn control_code_text() {
    assert_eq!(ControlCode::EndOfText.as_str(), "^C");
    assert_eq!(AsRef::<str>::as_ref(&ControlCode::Escape), "^[");
    assert_eq!(ControlCode::Space.as_str(), " ");
    assert_eq!(ControlCode::SUB.as_str(), "^Z");
}

#[test]
fn control_code_text_round_trip() {
    let codes = [
        ControlCode::NUL, ControlCode::SOH, ControlCode::STX, ControlCode::ETX,
        ControlCode::EOT, ControlCode::ENQ, ControlCode::ACK, ControlCode::BEL,
        ControlCode::BS, ControlCode::HT, ControlCode::LF, ControlCode::VT,
        ControlCode::FF, ControlCode::CR, ControlCode::SO, ControlCode::SI,
        ControlCode::DLE, ControlCode::DC1, ControlCode::DC2, ControlCode::DC3,
        ControlCode::DC4, ControlCode::NAK, ControlCode::SYN, ControlCode::ETB,
        ControlCode::CAN, ControlCode::EM, ControlCode::SUB, ControlCode::ESC,
        ControlCode::FS, ControlCode::GS, ControlCode::RS, ControlCode::US,
        ControlCode::DEL,
    ];
    for code in codes {
        assert_eq!(ControlCode::try_from(code.as_str()), Ok(code));
        let c = code.as_str().chars().nth(1).unwrap();
        assert_eq!(u8::from(code), (c as u8 + 64) % 128);
    }
    assert_eq!(ControlCode::try_from(ControlCode::SP.as_str()), Err(()));
}

#[test]
fn control_code_from_str_by_bytes() {
    // two bytes: a caret and a byte that is no lower case letter
    assert_eq!(ControlCode::try_from("^"), Err(()));
    assert_eq!(ControlCode::try_from(" "), Err(()));
    assert_eq!(ControlCode::try_from("^é"), Err(()));
    assert_eq!(ControlCode::try_from("é"), Err(()));
    assert_eq!(ControlCode::try_from("^_"), Ok(ControlCode::UnitSeparator));
}
