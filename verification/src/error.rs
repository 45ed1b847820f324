//! The error type of the crate.

use vstd::prelude::*;
use vstd::string::StringExecFns;

verus! {

#[verifier::external_type_specification]
#[verifier::external_body]
pub struct ExIoError(std::io::Error);

/// The main error type used in the crate.
#[derive(Debug)]
pub enum Error {
    /// An Error in IO operation.
    IO(std::io::Error),
    /// An Error in command line parsing.
    CommandParsing,
    /// An Error in regex parsing.
    RegexParsing,
    /// A timeout was reached while waiting in expect call.
    ExpectTimeout,
    /// Unhandled EOF error.
    Eof,
    /// It may be an OS specific error or a general error.
    Other {
        /// The reason of the error.
        message: String,
        /// An underlying error message.
        err: String,
    },
}

/// The text that `Error::to_string` gives for every variant but `IO`,
/// whose text ends in the message of the underlying IO error.
pub open spec fn error_text(e: Error) -> Seq<char> {
    match e {
        Error::IO(_) => "IO error "@,
        Error::CommandParsing => "Can't parse a command string, please check it out"@,
        Error::RegexParsing => "Can't parse a regex expression"@,
        Error::ExpectTimeout => "Reached a timeout for expect type of command"@,
        Error::Eof => "EOF was reached; the read may successed later"@,
        Error::Other { message, err } => "Unexpected error; "@ + message@ + "; "@ + err@,
    }
}

/// Renders an IO error with its `Display` implementation.
///
/// Calls `<std::io::Error as Display>::fmt` through `format!`. Nothing is stated
/// of the text: for an OS error it is the system's message, which depends on the machine.
#[verifier::external_body]
fn io_error_text(err: &std::io::Error) -> String {
    format!("{}", err)
}

impl Error {
    /// Creates an [`Error::Other`] from a reason and an underlying error message.
    pub fn unknown(message: &str, err: &str) -> (r: Error)
        ensures
            r matches Error::Other { message: m, err: e } && m@ == message@ && e@ == err@,
    {
        Error::Other { message: String::from_str(message), err: String::from_str(err) }
    }

    /// The human readable message of the error.
    ///
    /// For [`Error::IO`] the message starts with `IO error ` and goes on with the
    /// message of the underlying IO error.
    pub fn to_string(&self) -> (r: String)
        ensures
            !(self is IO) ==> r@ == error_text(*self),
            self is IO ==> r@.len() >= 9 && r@.subrange(0, 9) == error_text(*self),
    {
        match self {
            Error::IO(err) => {
                let prefix = String::from_str("IO error ");
                let text = io_error_text(err);
                proof { reveal_strlit("IO error "); }
                let r = prefix.concat(text.as_str());
                assert(r@.subrange(0, 9) =~= "IO error "@);
                r
            },
            Error::CommandParsing => String::from_str(
                "Can't parse a command string, please check it out",
            ),
            Error::RegexParsing => String::from_str("Can't parse a regex expression"),
            Error::ExpectTimeout => String::from_str(
                "Reached a timeout for expect type of command",
            ),
            Error::Eof => String::from_str("EOF was reached; the read may successed later"),
            Error::Other { message, err } => {
                let r = String::from_str("Unexpected error; ");
                let r = r.concat(message.as_str());
                let r = r.concat("; ");
                r.concat(err.as_str())
            },
        }
    }
}

impl From<std::io::Error> for Error {
    fn from(err: std::io::Error) -> (r: Error) {
        Error::IO(err)
    }
}

impl vstd::std_specs::convert::FromSpecImpl<std::io::Error> for Error {
    open spec fn obeys_from_spec() -> bool {
        true
    }

    open spec fn from_spec(err: std::io::Error) -> Error {
        Error::IO(err)
    }
}

} // verus!
