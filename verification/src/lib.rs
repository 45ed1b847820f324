//! A library for automating interactive terminal programs: spawn one, wait for
//! patterns in what it prints, and send it input.

mod bytes;
mod captures;
mod control_code;
mod error;
mod expect;
mod needle;
mod regex_engine;

pub mod process;
pub mod repl;
pub mod session;
pub mod stream;

pub mod interact;

pub use captures::{Captures, MatchIter};
pub use control_code::ControlCode;
pub use error::Error;
pub use expect::Expect;
pub use needle::{flatten_captures, Any, Eof, Match, NBytes, Needle, Regex};
