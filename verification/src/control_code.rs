//! A module which contains [ControlCode] type.

use vstd::prelude::*;
use vstd::utf8::*;
use vstd::string::StrSliceExecFns;

verus! {

/// ControlCode represents the standard ASCII control codes [wiki]
///
/// [wiki]: https://en.wikipedia.org/wiki/C0_and_C1_control_codes
#[derive(Debug, Clone, Copy, PartialEq, Eq, Structural)]
pub enum ControlCode {
    /// Often used as a string terminator, especially in the programming language C.
    Null,
    /// In message transmission, delimits the start of a message header.
    StartOfHeading,
    /// First character of message text, and may be used to terminate the message heading.
    StartOfText,
    /// Often used as a "break" character (Ctrl-C) to interrupt or terminate a program or process.
    EndOfText,
    /// Often used on Unix to indicate end-of-file on a terminal (Ctrl-D).
    EndOfTransmission,
    /// Signal intended to trigger a response at the receiving end, to see if it is still present.
    Enquiry,
    /// Response to an Enquiry, or an indication of successful receipt of a message.
    Acknowledge,
    /// Used for a beep on systems that didn't have a physical bell.
    Bell,
    /// Move the cursor one position leftwards.
    /// On input, this may delete the character to the left of the cursor.
    Backspace,
    /// Position to the next character tab stop.
    HorizontalTabulation,
    /// On Unix, used to mark end-of-line.
    /// In DOS, Windows, and various network standards, LF is used following CR as part of the end-of-line mark.
    LineFeed,
    /// Position the form at the next line tab stop.
    VerticalTabulation,
    /// It appears in some common plain text files as a page break character.
    FormFeed,
    /// Originally used to move the cursor to column zero while staying on the same line.
    CarriageReturn,
    /// Switch to an alternative character set.
    ShiftOut,
    /// Return to regular character set after ShiftOut.
    ShiftIn,
    /// May cause a limited number of contiguously following octets to be interpreted in some different way.
    DataLinkEscape,
    /// A control code which is reserved for device control.
    DeviceControl1,
    /// A control code which is reserved for device control.
    DeviceControl2,
    /// A control code which is reserved for device control.
    DeviceControl3,
    /// A control code which is reserved for device control.
    DeviceControl4,
    /// In multipoint systems, the NAK is used as the not-ready reply to a poll.
    NegativeAcknowledge,
    /// Used in synchronous transmission systems to provide a signal from which synchronous correction may be achieved.
    SynchronousIdle,
    /// Indicates the end of a transmission block of data.
    EndOfTransmissionBlock,
    /// Indicates that the data preceding it are in error or are to be disregarded.
    Cancel,
    /// May mark the end of the used portion of the physical medium.
    EndOfMedium,
    /// Sometimes used to indicate the end of file, both when typing on the terminal and in text files stored on disk.
    Substitute,
    /// The Esc key on the keyboard will cause this character to be sent on most systems.
    /// In systems based on ISO/IEC 2022, even if another set of C0 control codes are used,
    /// this octet is required to always represent the escape character.
    Escape,
    /// Can be used as delimiters to mark fields of data structures.
    /// Also it used for hierarchical levels;
    /// FS == level 4
    FileSeparator,
    /// It used for hierarchical levels;
    /// GS == level 3
    GroupSeparator,
    /// It used for hierarchical levels;
    /// RS == level 2
    RecordSeparator,
    /// It used for hierarchical levels;
    /// US == level 1
    UnitSeparator,
    /// Space is a graphic character. It causes the active position to be advanced by one character position.
    Space,
    /// Usually called backspace on modern machines, and does not correspond to the PC delete key.
    Delete,
}

impl ControlCode {
    /// See [ControlCode::Null]
    pub const NUL: ControlCode = ControlCode::Null;
    /// See [ControlCode::StartOfHeading]
    pub const SOH: ControlCode = ControlCode::StartOfHeading;
    /// See [ControlCode::StartOfText]
    pub const STX: ControlCode = ControlCode::StartOfText;
    /// See [ControlCode::EndOfText]
    pub const ETX: ControlCode = ControlCode::EndOfText;
    /// See [ControlCode::EndOfTransmission]
    pub const EOT: ControlCode = ControlCode::EndOfTransmission;
    /// See [ControlCode::Enquiry]
    pub const ENQ: ControlCode = ControlCode::Enquiry;
    /// See [ControlCode::Acknowledge]
    pub const ACK: ControlCode = ControlCode::Acknowledge;
    /// See [ControlCode::Bell]
    pub const BEL: ControlCode = ControlCode::Bell;
    /// See [ControlCode::Backspace]
    pub const BS: ControlCode = ControlCode::Backspace;
    /// See [ControlCode::HorizontalTabulation]
    pub const HT: ControlCode = ControlCode::HorizontalTabulation;
    /// See [ControlCode::LineFeed]
    pub const LF: ControlCode = ControlCode::LineFeed;
    /// See [ControlCode::VerticalTabulation]
    pub const VT: ControlCode = ControlCode::VerticalTabulation;
    /// See [ControlCode::FormFeed]
    pub const FF: ControlCode = ControlCode::FormFeed;
    /// See [ControlCode::CarriageReturn]
    pub const CR: ControlCode = ControlCode::CarriageReturn;
    /// See [ControlCode::ShiftOut]
    pub const SO: ControlCode = ControlCode::ShiftOut;
    /// See [ControlCode::ShiftIn]
    pub const SI: ControlCode = ControlCode::ShiftIn;
    /// See [ControlCode::DataLinkEscape]
    pub const DLE: ControlCode = ControlCode::DataLinkEscape;
    /// See [ControlCode::DeviceControl1]
    pub const DC1: ControlCode = ControlCode::DeviceControl1;
    /// See [ControlCode::DeviceControl2]
    pub const DC2: ControlCode = ControlCode::DeviceControl2;
    /// See [ControlCode::DeviceControl3]
    pub const DC3: ControlCode = ControlCode::DeviceControl3;
    /// See [ControlCode::DeviceControl4]
    pub const DC4: ControlCode = ControlCode::DeviceControl4;
    /// See [ControlCode::NegativeAcknowledge]
    pub const NAK: ControlCode = ControlCode::NegativeAcknowledge;
    /// See [ControlCode::SynchronousIdle]
    pub const SYN: ControlCode = ControlCode::SynchronousIdle;
    /// See [ControlCode::EndOfTransmissionBlock]
    pub const ETB: ControlCode = ControlCode::EndOfTransmissionBlock;
    /// See [ControlCode::Cancel]
    pub const CAN: ControlCode = ControlCode::Cancel;
    /// See [ControlCode::EndOfMedium]
    pub const EM: ControlCode = ControlCode::EndOfMedium;
    /// See [ControlCode::Substitute]
    pub const SUB: ControlCode = ControlCode::Substitute;
    /// See [ControlCode::Escape]
    pub const ESC: ControlCode = ControlCode::Escape;
    /// See [ControlCode::FileSeparator]
    pub const FS: ControlCode = ControlCode::FileSeparator;
    /// See [ControlCode::GroupSeparator]
    pub const GS: ControlCode = ControlCode::GroupSeparator;
    /// See [ControlCode::RecordSeparator]
    pub const RS: ControlCode = ControlCode::RecordSeparator;
    /// See [ControlCode::UnitSeparator]
    pub const US: ControlCode = ControlCode::UnitSeparator;
    /// See [ControlCode::Space]
    pub const SP: ControlCode = ControlCode::Space;
    /// See [ControlCode::Delete]
    pub const DEL: ControlCode = ControlCode::Delete;
}

/// The byte of a control code.
pub open spec fn code_byte(code: ControlCode) -> u8 {
    match code {
        ControlCode::Null => 0,
        ControlCode::StartOfHeading => 1,
        ControlCode::StartOfText => 2,
        ControlCode::EndOfText => 3,
        ControlCode::EndOfTransmission => 4,
        ControlCode::Enquiry => 5,
        ControlCode::Acknowledge => 6,
        ControlCode::Bell => 7,
        ControlCode::Backspace => 8,
        ControlCode::HorizontalTabulation => 9,
        ControlCode::LineFeed => 10,
        ControlCode::VerticalTabulation => 11,
        ControlCode::FormFeed => 12,
        ControlCode::CarriageReturn => 13,
        ControlCode::ShiftOut => 14,
        ControlCode::ShiftIn => 15,
        ControlCode::DataLinkEscape => 16,
        ControlCode::DeviceControl1 => 17,
        ControlCode::DeviceControl2 => 18,
        ControlCode::DeviceControl3 => 19,
        ControlCode::DeviceControl4 => 20,
        ControlCode::NegativeAcknowledge => 21,
        ControlCode::SynchronousIdle => 22,
        ControlCode::EndOfTransmissionBlock => 23,
        ControlCode::Cancel => 24,
        ControlCode::EndOfMedium => 25,
        ControlCode::Substitute => 26,
        ControlCode::Escape => 27,
        ControlCode::FileSeparator => 28,
        ControlCode::GroupSeparator => 29,
        ControlCode::RecordSeparator => 30,
        ControlCode::UnitSeparator => 31,
        ControlCode::Space => 32,
        ControlCode::Delete => 127,
    }
}

/// The character that follows `^` in the caret notation of a control code.
pub open spec fn caret_char(code: ControlCode) -> char {
    match code {
        ControlCode::Null => '@',
        ControlCode::StartOfHeading => 'A',
        ControlCode::StartOfText => 'B',
        ControlCode::EndOfText => 'C',
        ControlCode::EndOfTransmission => 'D',
        ControlCode::Enquiry => 'E',
        ControlCode::Acknowledge => 'F',
        ControlCode::Bell => 'G',
        ControlCode::Backspace => 'H',
        ControlCode::HorizontalTabulation => 'I',
        ControlCode::LineFeed => 'J',
        ControlCode::VerticalTabulation => 'K',
        ControlCode::FormFeed => 'L',
        ControlCode::CarriageReturn => 'M',
        ControlCode::ShiftOut => 'N',
        ControlCode::ShiftIn => 'O',
        ControlCode::DataLinkEscape => 'P',
        ControlCode::DeviceControl1 => 'Q',
        ControlCode::DeviceControl2 => 'R',
        ControlCode::DeviceControl3 => 'S',
        ControlCode::DeviceControl4 => 'T',
        ControlCode::NegativeAcknowledge => 'U',
        ControlCode::SynchronousIdle => 'V',
        ControlCode::EndOfTransmissionBlock => 'W',
        ControlCode::Cancel => 'X',
        ControlCode::EndOfMedium => 'Y',
        ControlCode::Substitute => 'Z',
        ControlCode::Escape => '[',
        ControlCode::FileSeparator => '\\',
        ControlCode::GroupSeparator => ']',
        ControlCode::RecordSeparator => '^',
        ControlCode::UnitSeparator => '_',
        ControlCode::Space => ' ',
        ControlCode::Delete => '?',
    }
}

/// The text of a control code: its caret notation, but a single space for [ControlCode::Space].
pub open spec fn code_text(code: ControlCode) -> Seq<char> {
    if code == ControlCode::Space {
        seq![' ']
    } else {
        seq!['^', caret_char(code)]
    }
}

/// The control code that a character names (`@`, a letter of either case, `[`, `\\`, `]`,
/// `^`, `_`, a space or `?`), as in `Ctrl-C`.
pub open spec fn code_of_char(c: char) -> Option<ControlCode> {
    if c == '@' {
        Some(ControlCode::Null)
    } else if c == 'A' || c == 'a' {
        Some(ControlCode::StartOfHeading)
    } else if c == 'B' || c == 'b' {
        Some(ControlCode::StartOfText)
    } else if c == 'C' || c == 'c' {
        Some(ControlCode::EndOfText)
    } else if c == 'D' || c == 'd' {
        Some(ControlCode::EndOfTransmission)
    } else if c == 'E' || c == 'e' {
        Some(ControlCode::Enquiry)
    } else if c == 'F' || c == 'f' {
        Some(ControlCode::Acknowledge)
    } else if c == 'G' || c == 'g' {
        Some(ControlCode::Bell)
    } else if c == 'H' || c == 'h' {
        Some(ControlCode::Backspace)
    } else if c == 'I' || c == 'i' {
        Some(ControlCode::HorizontalTabulation)
    } else if c == 'J' || c == 'j' {
        Some(ControlCode::LineFeed)
    } else if c == 'K' || c == 'k' {
        Some(ControlCode::VerticalTabulation)
    } else if c == 'L' || c == 'l' {
        Some(ControlCode::FormFeed)
    } else if c == 'M' || c == 'm' {
        Some(ControlCode::CarriageReturn)
    } else if c == 'N' || c == 'n' {
        Some(ControlCode::ShiftOut)
    } else if c == 'O' || c == 'o' {
        Some(ControlCode::ShiftIn)
    } else if c == 'P' || c == 'p' {
        Some(ControlCode::DataLinkEscape)
    } else if c == 'Q' || c == 'q' {
        Some(ControlCode::DeviceControl1)
    } else if c == 'R' || c == 'r' {
        Some(ControlCode::DeviceControl2)
    } else if c == 'S' || c == 's' {
        Some(ControlCode::DeviceControl3)
    } else if c == 'T' || c == 't' {
        Some(ControlCode::DeviceControl4)
    } else if c == 'U' || c == 'u' {
        Some(ControlCode::NegativeAcknowledge)
    } else if c == 'V' || c == 'v' {
        Some(ControlCode::SynchronousIdle)
    } else if c == 'W' || c == 'w' {
        Some(ControlCode::EndOfTransmissionBlock)
    } else if c == 'X' || c == 'x' {
        Some(ControlCode::Cancel)
    } else if c == 'Y' || c == 'y' {
        Some(ControlCode::EndOfMedium)
    } else if c == 'Z' || c == 'z' {
        Some(ControlCode::Substitute)
    } else if c == '[' {
        Some(ControlCode::Escape)
    } else if c == '\\' {
        Some(ControlCode::FileSeparator)
    } else if c == ']' {
        Some(ControlCode::GroupSeparator)
    } else if c == '^' {
        Some(ControlCode::RecordSeparator)
    } else if c == '_' {
        Some(ControlCode::UnitSeparator)
    } else if c == ' ' {
        Some(ControlCode::Space)
    } else if c == '?' {
        Some(ControlCode::Delete)
    } else {
        None
    }
}

/// The control code that a text names in caret notation: `^` followed by `@`, an
/// upper case letter, `[`, `\\`, `]`, `^`, `_`, a space or `?`.
pub open spec fn code_of_text(s: Seq<char>) -> Option<ControlCode> {
    if s.len() == 2 && s[0] == '^' && !('a' <= s[1] <= 'z') {
        code_of_char(s[1])
    } else {
        None
    }
}

fn from_char(c: char) -> (r: Option<ControlCode>)
    ensures
        r == code_of_char(c),
{
    match c {
        '@' => Some(ControlCode::Null),
        'A' | 'a' => Some(ControlCode::StartOfHeading),
        'B' | 'b' => Some(ControlCode::StartOfText),
        'C' | 'c' => Some(ControlCode::EndOfText),
        'D' | 'd' => Some(ControlCode::EndOfTransmission),
        'E' | 'e' => Some(ControlCode::Enquiry),
        'F' | 'f' => Some(ControlCode::Acknowledge),
        'G' | 'g' => Some(ControlCode::Bell),
        'H' | 'h' => Some(ControlCode::Backspace),
        'I' | 'i' => Some(ControlCode::HorizontalTabulation),
        'J' | 'j' => Some(ControlCode::LineFeed),
        'K' | 'k' => Some(ControlCode::VerticalTabulation),
        'L' | 'l' => Some(ControlCode::FormFeed),
        'M' | 'm' => Some(ControlCode::CarriageReturn),
        'N' | 'n' => Some(ControlCode::ShiftOut),
        'O' | 'o' => Some(ControlCode::ShiftIn),
        'P' | 'p' => Some(ControlCode::DataLinkEscape),
        'Q' | 'q' => Some(ControlCode::DeviceControl1),
        'R' | 'r' => Some(ControlCode::DeviceControl2),
        'S' | 's' => Some(ControlCode::DeviceControl3),
        'T' | 't' => Some(ControlCode::DeviceControl4),
        'U' | 'u' => Some(ControlCode::NegativeAcknowledge),
        'V' | 'v' => Some(ControlCode::SynchronousIdle),
        'W' | 'w' => Some(ControlCode::EndOfTransmissionBlock),
        'X' | 'x' => Some(ControlCode::Cancel),
        'Y' | 'y' => Some(ControlCode::EndOfMedium),
        'Z' | 'z' => Some(ControlCode::Substitute),
        '[' => Some(ControlCode::Escape),
        '\\' => Some(ControlCode::FileSeparator),
        ']' => Some(ControlCode::GroupSeparator),
        '^' => Some(ControlCode::RecordSeparator),
        '_' => Some(ControlCode::UnitSeparator),
        ' ' => Some(ControlCode::Space),
        '?' => Some(ControlCode::Delete),
        _ => None,
    }
}

impl From<ControlCode> for u8 {
    fn from(val: ControlCode) -> (r: u8) {
        match val {
            ControlCode::Null => 0,
            ControlCode::StartOfHeading => 1,
            ControlCode::StartOfText => 2,
            ControlCode::EndOfText => 3,
            ControlCode::EndOfTransmission => 4,
            ControlCode::Enquiry => 5,
            ControlCode::Acknowledge => 6,
            ControlCode::Bell => 7,
            ControlCode::Backspace => 8,
            ControlCode::HorizontalTabulation => 9,
            ControlCode::LineFeed => 10,
            ControlCode::VerticalTabulation => 11,
            ControlCode::FormFeed => 12,
            ControlCode::CarriageReturn => 13,
            ControlCode::ShiftOut => 14,
            ControlCode::ShiftIn => 15,
            ControlCode::DataLinkEscape => 16,
            ControlCode::DeviceControl1 => 17,
            ControlCode::DeviceControl2 => 18,
            ControlCode::DeviceControl3 => 19,
            ControlCode::DeviceControl4 => 20,
            ControlCode::NegativeAcknowledge => 21,
            ControlCode::SynchronousIdle => 22,
            ControlCode::EndOfTransmissionBlock => 23,
            ControlCode::Cancel => 24,
            ControlCode::EndOfMedium => 25,
            ControlCode::Substitute => 26,
            ControlCode::Escape => 27,
            ControlCode::FileSeparator => 28,
            ControlCode::GroupSeparator => 29,
            ControlCode::RecordSeparator => 30,
            ControlCode::UnitSeparator => 31,
            ControlCode::Space => 32,
            ControlCode::Delete => 127,
        }
    }
}

impl vstd::std_specs::convert::FromSpecImpl<ControlCode> for u8 {
    open spec fn obeys_from_spec() -> bool {
        true
    }

    open spec fn from_spec(code: ControlCode) -> u8 {
        code_byte(code)
    }
}

impl TryFrom<char> for ControlCode {
    type Error = ();

    fn try_from(c: char) -> (r: Result<ControlCode, ()>) {
        match from_char(c) {
            Some(code) => Ok(code),
            None => Err(()),
        }
    }
}

impl vstd::std_specs::convert::TryFromSpecImpl<char> for ControlCode {
    open spec fn obeys_try_from_spec() -> bool {
        true
    }

    open spec fn try_from_spec(c: char) -> Result<ControlCode, ()> {
        match code_of_char(c) {
            Some(code) => Ok(code),
            None => Err(()),
        }
    }
}

impl<'a> TryFrom<&'a str> for ControlCode {
    type Error = ();

    fn try_from(s: &'a str) -> (r: Result<ControlCode, ()>) {
        if s.unicode_len() != 2 {
            return Err(());
        }
        if s.get_char(0) != '^' {
            return Err(());
        }
        let c = s.get_char(1);
        if 'a' <= c && c <= 'z' {
            return Err(());
        }
        match from_char(c) {
            Some(code) => Ok(code),
            None => Err(()),
        }
    }
}

impl<'a> vstd::std_specs::convert::TryFromSpecImpl<&'a str> for ControlCode {
    open spec fn obeys_try_from_spec() -> bool {
        true
    }

    open spec fn try_from_spec(s: &'a str) -> Result<ControlCode, ()> {
        match code_of_text(s@) {
            Some(code) => Ok(code),
            None => Err(()),
        }
    }
}

impl ControlCode {
    /// The text of the code: its caret notation (`^C` for [ControlCode::EndOfText]),
    /// but a single space for [ControlCode::Space].
    pub fn as_str(&self) -> (r: &'static str)
        ensures
            r@ == code_text(*self),
    {
        match self {
            ControlCode::Null => {
                proof {
                    reveal_strlit("^@");
                }
                "^@"
            },
            ControlCode::StartOfHeading => {
                proof {
                    reveal_strlit("^A");
                }
                "^A"
            },
            ControlCode::StartOfText => {
                proof {
                    reveal_strlit("^B");
                }
                "^B"
            },
            ControlCode::EndOfText => {
                proof {
                    reveal_strlit("^C");
                }
                "^C"
            },
            ControlCode::EndOfTransmission => {
                proof {
                    reveal_strlit("^D");
                }
                "^D"
            },
            ControlCode::Enquiry => {
                proof {
                    reveal_strlit("^E");
                }
                "^E"
            },
            ControlCode::Acknowledge => {
                proof {
                    reveal_strlit("^F");
                }
                "^F"
            },
            ControlCode::Bell => {
                proof {
                    reveal_strlit("^G");
                }
                "^G"
            },
            ControlCode::Backspace => {
                proof {
                    reveal_strlit("^H");
                }
                "^H"
            },
            ControlCode::HorizontalTabulation => {
                proof {
                    reveal_strlit("^I");
                }
                "^I"
            },
            ControlCode::LineFeed => {
                proof {
                    reveal_strlit("^J");
                }
                "^J"
            },
            ControlCode::VerticalTabulation => {
                proof {
                    reveal_strlit("^K");
                }
                "^K"
            },
            ControlCode::FormFeed => {
                proof {
                    reveal_strlit("^L");
                }
                "^L"
            },
            ControlCode::CarriageReturn => {
                proof {
                    reveal_strlit("^M");
                }
                "^M"
            },
            ControlCode::ShiftOut => {
                proof {
                    reveal_strlit("^N");
                }
                "^N"
            },
            ControlCode::ShiftIn => {
                proof {
                    reveal_strlit("^O");
                }
                "^O"
            },
            ControlCode::DataLinkEscape => {
                proof {
                    reveal_strlit("^P");
                }
                "^P"
            },
            ControlCode::DeviceControl1 => {
                proof {
                    reveal_strlit("^Q");
                }
                "^Q"
            },
            ControlCode::DeviceControl2 => {
                proof {
                    reveal_strlit("^R");
                }
                "^R"
            },
            ControlCode::DeviceControl3 => {
                proof {
                    reveal_strlit("^S");
                }
                "^S"
            },
            ControlCode::DeviceControl4 => {
                proof {
                    reveal_strlit("^T");
                }
                "^T"
            },
            ControlCode::NegativeAcknowledge => {
                proof {
                    reveal_strlit("^U");
                }
                "^U"
            },
            ControlCode::SynchronousIdle => {
                proof {
                    reveal_strlit("^V");
                }
                "^V"
            },
            ControlCode::EndOfTransmissionBlock => {
                proof {
                    reveal_strlit("^W");
                }
                "^W"
            },
            ControlCode::Cancel => {
                proof {
                    reveal_strlit("^X");
                }
                "^X"
            },
            ControlCode::EndOfMedium => {
                proof {
                    reveal_strlit("^Y");
                }
                "^Y"
            },
            ControlCode::Substitute => {
                proof {
                    reveal_strlit("^Z");
                }
                "^Z"
            },
            ControlCode::Escape => {
                proof {
                    reveal_strlit("^[");
                }
                "^["
            },
            ControlCode::FileSeparator => {
                proof {
                    reveal_strlit("^\\");
                }
                "^\\"
            },
            ControlCode::GroupSeparator => {
                proof {
                    reveal_strlit("^]");
                }
                "^]"
            },
            ControlCode::RecordSeparator => {
                proof {
                    reveal_strlit("^^");
                }
                "^^"
            },
            ControlCode::UnitSeparator => {
                proof {
                    reveal_strlit("^_");
                }
                "^_"
            },
            ControlCode::Space => {
                proof {
                    reveal_strlit(" ");
                }
                " "
            },
            ControlCode::Delete => {
                proof {
                    reveal_strlit("^?");
                }
                "^?"
            },
        }
    }

    /// The byte of the code, as a one byte slice.
    pub fn as_bytes(&self) -> (r: &'static [u8])
        ensures
            r@ == seq![code_byte(*self)],
    {
        match self {
            ControlCode::Null => &[0],
            ControlCode::StartOfHeading => &[1],
            ControlCode::StartOfText => &[2],
            ControlCode::EndOfText => &[3],
            ControlCode::EndOfTransmission => &[4],
            ControlCode::Enquiry => &[5],
            ControlCode::Acknowledge => &[6],
            ControlCode::Bell => &[7],
            ControlCode::Backspace => &[8],
            ControlCode::HorizontalTabulation => &[9],
            ControlCode::LineFeed => &[10],
            ControlCode::VerticalTabulation => &[11],
            ControlCode::FormFeed => &[12],
            ControlCode::CarriageReturn => &[13],
            ControlCode::ShiftOut => &[14],
            ControlCode::ShiftIn => &[15],
            ControlCode::DataLinkEscape => &[16],
            ControlCode::DeviceControl1 => &[17],
            ControlCode::DeviceControl2 => &[18],
            ControlCode::DeviceControl3 => &[19],
            ControlCode::DeviceControl4 => &[20],
            ControlCode::NegativeAcknowledge => &[21],
            ControlCode::SynchronousIdle => &[22],
            ControlCode::EndOfTransmissionBlock => &[23],
            ControlCode::Cancel => &[24],
            ControlCode::EndOfMedium => &[25],
            ControlCode::Substitute => &[26],
            ControlCode::Escape => &[27],
            ControlCode::FileSeparator => &[28],
            ControlCode::GroupSeparator => &[29],
            ControlCode::RecordSeparator => &[30],
            ControlCode::UnitSeparator => &[31],
            ControlCode::Space => &[32],
            ControlCode::Delete => &[127],
        }
    }
}

impl AsRef<str> for ControlCode {
    fn as_ref(&self) -> &str {
        self.as_str()
    }
}

impl AsRef<[u8]> for ControlCode {
    fn as_ref(&self) -> &[u8] {
        self.as_bytes()
    }
}

/// Reading back the text of a control code gives the code again, for every code
/// but [ControlCode::Space], whose text is a bare space.
pub proof fn lemma_text_round_trip(code: ControlCode)
    requires
        code != ControlCode::Space,
    ensures
        code_of_text(code_text(code)) == Some(code),
{
}

/// The character of a control code names that code.
pub proof fn lemma_char_round_trip(code: ControlCode)
    ensures
        code_of_char(caret_char(code)) == Some(code),
{
}

/// A control code is its character with the bit 0x40 flipped (the Ctrl key), for every
/// code but [ControlCode::Space], which is the byte of a space.
pub proof fn lemma_ctrl_key(code: ControlCode)
    ensures
        code != ControlCode::Space ==> code_byte(code) as int == (caret_char(code) as int + 64) % 128,
        code == ControlCode::Space ==> code_byte(code) == 32,
{
}

/// The control code that the bytes of a text name in caret notation: two bytes,
/// `^` and a byte that is no lower case letter and names a code as a character.
pub open spec fn code_of_bytes(b: Seq<u8>) -> Option<ControlCode> {
    if b.len() == 2 && b[0] == 0x5e && !(0x61 <= b[1] <= 0x7a) {
        code_of_char(b[1] as char)
    } else {
        None
    }
}

/// A character below 0x80 is encoded as one byte, its value; any other one as
/// at least two bytes, the first of them at least 0xC0.
proof fn lemma_encode_char(c: char)
    ensures
        (c as u32) <= 0x7F ==> encode_scalar(c as u32) == seq![c as u8] && (c as u8) as char == c,
        (c as u32) > 0x7F ==> encode_scalar(c as u32).len() >= 2 && encode_scalar(c as u32)[0]
            >= 0xC0,
{
    let v = c as u32;
    if v <= 0x7F {
        assert((v & 0x7F) as u8 == v as u8) by (bit_vector)
            requires
                v <= 0x7F,
        ;
    } else if v <= 0x7FF {
        assert(0xC0 | ((v >> 6) & 0x1F) as u8 >= 0xC0) by (bit_vector);
    } else if has_width_3_encoding(v) {
        assert(0xE0 | ((v >> 12) & 0x0F) as u8 >= 0xC0) by (bit_vector);
    } else {
        assert(0xF0 | ((v >> 18) & 0x7) as u8 >= 0xC0) by (bit_vector);
    }
}

/// A text is encoded as at least as many bytes as it has characters.
proof fn lemma_encode_len(s: Seq<char>)
    ensures
        encode_utf8(s).len() >= s.len(),
    decreases s.len(),
{
    if s.len() > 0 {
        lemma_encode_char(s[0]);
        lemma_encode_len(s.drop_first());
    }
}

/// A text names a control code exactly when its UTF-8 bytes do, and the same
/// one: `^` and a byte that is no lower case letter and names a code.
pub proof fn lemma_text_bytes(s: Seq<char>)
    ensures
        code_of_text(s) == code_of_bytes(encode_utf8(s)),
{
    if s.len() > 0 {
        let e = encode_utf8(s);
        let e0 = encode_scalar(s[0] as u32);
        let rest = s.drop_first();
        lemma_encode_char(s[0]);
        lemma_encode_len(rest);
        assert(e == e0 + encode_utf8(rest));
        if s.len() >= 2 {
            let e1 = encode_scalar(rest[0] as u32);
            lemma_encode_char(rest[0]);
            lemma_encode_len(rest.drop_first());
            assert(encode_utf8(rest) == e1 + encode_utf8(rest.drop_first()));
            assert(rest[0] == s[1]);
            if s.len() == 2 {
                assert(rest.drop_first().len() == 0);
                assert(encode_utf8(rest.drop_first()) =~= Seq::<u8>::empty());
                if (s[0] as u32) <= 0x7F && (s[1] as u32) <= 0x7F {
                    assert(e =~= seq![s[0] as u8, s[1] as u8]);
                }
            }
        }
    }
}

/// The byte of each control code is its value in the C0 table of ASCII: the
/// codes from NUL to US are the bytes 0 to 31 in the order of the table (NUL,
/// SOH, STX, ETX, EOT, ENQ, ...), then SP is 32 and DEL is 127. With
/// [lemma_ctrl_key] and [lemma_char_round_trip] this fixes the caret text and
/// the character of each code too (`^D` and `D` for EOT, Ctrl-D).
pub proof fn lemma_c0_table()
    ensures
        code_byte(ControlCode::Null) == 0,
        code_byte(ControlCode::StartOfHeading) == 1,
        code_byte(ControlCode::StartOfText) == 2,
        code_byte(ControlCode::EndOfText) == 3,
        code_byte(ControlCode::EndOfTransmission) == 4,
        code_byte(ControlCode::Enquiry) == 5,
        code_byte(ControlCode::Acknowledge) == 6,
        code_byte(ControlCode::Bell) == 7,
        code_byte(ControlCode::Backspace) == 8,
        code_byte(ControlCode::HorizontalTabulation) == 9,
        code_byte(ControlCode::LineFeed) == 10,
        code_byte(ControlCode::VerticalTabulation) == 11,
        code_byte(ControlCode::FormFeed) == 12,
        code_byte(ControlCode::CarriageReturn) == 13,
        code_byte(ControlCode::ShiftOut) == 14,
        code_byte(ControlCode::ShiftIn) == 15,
        code_byte(ControlCode::DataLinkEscape) == 16,
        code_byte(ControlCode::DeviceControl1) == 17,
        code_byte(ControlCode::DeviceControl2) == 18,
        code_byte(ControlCode::DeviceControl3) == 19,
        code_byte(ControlCode::DeviceControl4) == 20,
        code_byte(ControlCode::NegativeAcknowledge) == 21,
        code_byte(ControlCode::SynchronousIdle) == 22,
        code_byte(ControlCode::EndOfTransmissionBlock) == 23,
        code_byte(ControlCode::Cancel) == 24,
        code_byte(ControlCode::EndOfMedium) == 25,
        code_byte(ControlCode::Substitute) == 26,
        code_byte(ControlCode::Escape) == 27,
        code_byte(ControlCode::FileSeparator) == 28,
        code_byte(ControlCode::GroupSeparator) == 29,
        code_byte(ControlCode::RecordSeparator) == 30,
        code_byte(ControlCode::UnitSeparator) == 31,
        code_byte(ControlCode::Space) == 32,
        code_byte(ControlCode::Delete) == 127,
{
}

/// A lower case letter names the same control code as its upper case letter,
/// and every letter names a code.
pub proof fn lemma_letter_case(c: char)
    requires
        'a' <= c <= 'z',
    ensures
        code_of_char(c) == code_of_char(((c as u32) - 32) as char),
        code_of_char(c) is Some,
{
}

} // verus!
