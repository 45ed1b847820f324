//! Actions that can be used in an interact session.

pub mod lookup;
