//! The decisions a session takes on the bytes it has read from a process.
//!
//! A session reads from a process and keeps what it read in a buffer; the
//! functions here say what an `expect`, a `check` or an `is_matched` call makes
//! of that buffer, so that the reading loop only has to do the IO.

use vstd::prelude::*;

use crate::bytes::take_front;
use crate::captures::{lemma_right_most, right_most, Captures};
use crate::error::Error;
use crate::interact::actions::lookup::check;
use crate::needle::{Match, Needle};

verus! {

broadcast use vstd::seq::group_seq_axioms;

/// The default timeout of an `expect` call, in milliseconds.
pub const DEFAULT_EXPECT_TIMEOUT_MS: u64 = 10000;

/// What a `check` call makes of the available bytes once they have been read.
///
/// A match takes the bytes up to its end out of `buf` and returns them with the
/// matches. With no match an EOF is an error, and otherwise empty captures are returned.
pub fn check_buffer<N: Needle>(buf: &mut Vec<u8>, needle: N, eof: bool) -> (r: Result<
    Captures,
    Error,
>)
    ensures
        match needle.spec_check(old(buf)@, eof) {
            Err(e) => r == Err::<Captures, Error>(e) && final(buf)@ == old(buf)@,
            Ok(v) => if v.len() > 0 {
                &&& r matches Ok(c)
                &&& c.spec_matches() == v
                &&& c.spec_buf() == old(buf)@.take(right_most(v) as int)
                &&& final(buf)@ == old(buf)@.skip(right_most(v) as int)
                &&& old(buf)@ == c.spec_buf() + final(buf)@
            } else if eof {
                r == Err::<Captures, Error>(Error::Eof) && final(buf)@ == old(buf)@
            } else {
                &&& r matches Ok(c)
                &&& c.spec_matches().len() == 0
                &&& c.spec_buf().len() == 0
                &&& final(buf)@ == old(buf)@
            },
        },
{
    match check(buf, needle, eof) {
        Err(e) => Err(e),
        Ok(Some(c)) => Ok(c),
        Ok(None) => {
            if eof {
                Err(Error::Eof)
            } else {
                Ok(Captures::new(Vec::new(), Vec::new()))
            }
        },
    }
}

/// What an `is_matched` call makes of the available bytes: whether the needle
/// finds something; with no match an EOF is an error. The bytes stay where they are.
pub fn is_matched_buffer<N: Needle>(buf: &[u8], needle: N, eof: bool) -> (r: Result<bool, Error>)
    ensures
        match needle.spec_check(buf@, eof) {
            Err(e) => r == Err::<bool, Error>(e),
            Ok(v) => if v.len() > 0 {
                r == Ok::<bool, Error>(true)
            } else if eof {
                r == Err::<bool, Error>(Error::Eof)
            } else {
                r == Ok::<bool, Error>(false)
            },
        },
{
    let found = needle.check(buf, eof)?;
    if found.len() > 0 {
        Ok(true)
    } else if eof {
        Err(Error::Eof)
    } else {
        Ok(false)
    }
}

/// The outcome of one step of an `expect` call.
#[derive(Debug)]
pub enum ExpectStep {
    /// The needle found a match; its bytes were taken out of the buffer.
    Found(Captures),
    /// No match yet: the number of available bytes that were checked.
    Continue(usize),
}

/// One step of an `expect` call, which matches greedily (the default): the
/// needle runs on all the available bytes, as [check_buffer] does, so that e.g.
/// `\d+` on `123` matches `123`.
///
/// A match takes the bytes up to its end out of `available`. With no match an
/// EOF is an error; otherwise the caller reads more and steps again.
pub fn expect_step<N: Needle>(available: &mut Vec<u8>, eof: bool, needle: N) -> (r: Result<
    ExpectStep,
    Error,
>)
    ensures
        match needle.spec_check(old(available)@, eof) {
            Err(e) => r == Err::<ExpectStep, Error>(e) && final(available)@ == old(available)@,
            Ok(v) => if v.len() > 0 {
                &&& r matches Ok(ExpectStep::Found(c))
                &&& c.spec_matches() == v
                &&& c.spec_buf() == old(available)@.take(right_most(v) as int)
                &&& final(available)@ == old(available)@.skip(right_most(v) as int)
                &&& old(available)@ == c.spec_buf() + final(available)@
            } else if eof {
                r == Err::<ExpectStep, Error>(Error::Eof) && final(available)@ == old(available)@
            } else {
                r == Ok::<ExpectStep, Error>(ExpectStep::Continue(old(available)@.len() as usize))
                    && final(available)@ == old(available)@
            },
        },
{
    let len = available.len();
    match check(available, needle, eof) {
        Err(e) => Err(e),
        Ok(Some(c)) => Ok(ExpectStep::Found(c)),
        Ok(None) => {
            if eof {
                Err(Error::Eof)
            } else {
                Ok(ExpectStep::Continue(len))
            }
        },
    }
}

/// One step of an `expect` call which matches lazily.
///
/// `checked` bytes of `available` were looked at before; one more is taken in
/// (when there is one) and the needle runs on that prefix, so that a match is
/// found as early as possible. A match takes the bytes up to its end out of
/// `available`. With no match an EOF is an error; otherwise the caller reads more
/// (when all available bytes have been checked) and steps again.
pub fn expect_lazy_step<N: Needle>(available: &mut Vec<u8>, checked: usize, eof: bool, needle: N) -> (r:
    Result<ExpectStep, Error>)
    requires
        checked <= old(available)@.len(),
    ensures
        ({
            let next = if checked < old(available)@.len() {
                checked + 1
            } else {
                checked as int
            };
            let data = old(available)@.take(next);
            match needle.spec_check(data, eof) {
                Err(e) => r == Err::<ExpectStep, Error>(e) && final(available)@ == old(available)@,
                Ok(v) => if v.len() > 0 {
                    &&& r matches Ok(ExpectStep::Found(c))
                    &&& c.spec_matches() == v
                    &&& right_most(v) <= next
                    &&& c.spec_buf() == old(available)@.take(right_most(v) as int)
                    &&& final(available)@ == old(available)@.skip(right_most(v) as int)
                    &&& old(available)@ == c.spec_buf() + final(available)@
                } else if eof {
                    r == Err::<ExpectStep, Error>(Error::Eof)
                        && final(available)@ == old(available)@
                } else {
                    r == Ok::<ExpectStep, Error>(ExpectStep::Continue(next as usize))
                        && final(available)@ == old(available)@
                },
            }
        }),
{
    let len = available.len();
    let next = if checked < len {
        checked + 1
    } else {
        checked
    };
    let data = vstd::slice::slice_subrange(available.as_slice(), 0, next);
    assert(data@ =~= available@.take(next as int));
    let found = needle.check(data, eof)?;
    if found.len() > 0 {
        let end_index = Captures::right_most_index(found.as_slice());
        proof {
            lemma_right_most(found@, data@.len());
        }
        let involved = take_front(available, end_index);
        Ok(ExpectStep::Found(Captures::new(involved, found)))
    } else if eof {
        Err(Error::Eof)
    } else {
        Ok(ExpectStep::Continue(next))
    }
}

} // verus!
