//! Stream module contains the logic of the IO wrappers of a session.

pub mod buffer;
pub mod log;
