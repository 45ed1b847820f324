//! The [Expect] trait: the common expect functions of a session.

use vstd::prelude::*;

use crate::captures::{right_most, Captures};
use crate::error::Error;
use crate::needle::{finds_nothing, Match, Needle};

verus! {

/// The captures are what `needle` finds in some bytes read from a stream (as
/// many as a buffer can hold), with the EOF indication of that read: its matches
/// there, with the bytes up to the end of the right most one. Captures without
/// a match come only from a read that did not reach the end of the stream.
pub open spec fn found_by<N: Needle>(needle: N, c: Captures) -> bool {
    exists|data: Seq<u8>, eof: bool|
        #![trigger needle.spec_check(data, eof)]
        {
            &&& needle.spec_check(data, eof) == Ok::<Seq<Match>, Error>(c.spec_matches())
            &&& data.len() <= usize::MAX
            &&& c.spec_buf() == data.take(right_most(c.spec_matches()) as int)
            &&& c.spec_matches().len() == 0 ==> !eof
        }
}

/// `found` tells whether `needle` finds something in some bytes read from a
/// stream (as many as a buffer can hold); nothing is found only in a read that
/// did not reach the end of the stream.
pub open spec fn matched_by<N: Needle>(needle: N, found: bool) -> bool {
    exists|data: Seq<u8>, eof: bool|
        #![trigger needle.spec_check(data, eof)]
        {
            &&& needle.spec_check(data, eof) matches Ok(v)
            &&& data.len() <= usize::MAX
            &&& found == (v.len() > 0)
            &&& !found ==> !eof
        }
}

/// The needle runs without an error and finds nothing in some bytes read up to
/// the end of a stream (as many as a buffer can hold): what an EOF error answers.
pub open spec fn missed_at_end<N: Needle>(needle: N) -> bool {
    exists|data: Seq<u8>|
        #![trigger needle.spec_check(data, true)]
        data.len() <= usize::MAX && finds_nothing(needle.spec_check(data, true))
}

/// Expect trait provides common expect functions.
pub trait Expect {
    /// Expect waits until a pattern is matched.
    ///
    /// If the method returns [Ok] it is guaranteed that at least 1 match was found,
    /// and the bytes up to the end of the matches are taken out of the output.
    /// It returns an error if a timeout is reached, or the output ends first;
    /// then nothing is taken out.
    fn expect<N: Needle>(&mut self, needle: N) -> (r: Result<Captures, Error>)
        ensures
            r matches Ok(c) ==> c.spec_matches().len() > 0 && found_by(needle, c),
            r matches Err(Error::Eof) ==> missed_at_end(needle),
    ;

    /// Check verifies if a pattern is matched.
    /// Returns empty captures if nothing is found.
    ///
    /// It is a non blocking version of [Expect::expect], which searches all the
    /// bytes available: it never waits for a timeout, and it fails with an EOF
    /// only when the needle finds nothing in a read that reached the end.
    fn check<N: Needle>(&mut self, needle: N) -> (r: Result<Captures, Error>)
        ensures
            r matches Ok(c) ==> found_by(needle, c),
            !(r matches Err(Error::ExpectTimeout)),
            r matches Err(Error::Eof) ==> missed_at_end(needle),
    ;

    /// The function checks if a pattern is matched.
    /// It doesn't consume bytes from the stream.
    fn is_matched<N: Needle>(&mut self, needle: N) -> (r: Result<bool, Error>)
        ensures
            r matches Ok(found) ==> matched_by(needle, found),
            !(r matches Err(Error::ExpectTimeout)),
            r matches Err(Error::Eof) ==> missed_at_end(needle),
    ;

    /// Send buffer to the stream.
    fn send(&mut self, buf: &[u8]) -> Result<(), Error>;

    /// Send line to the stream: the bytes and a line feed.
    fn send_line(&mut self, buf: &[u8]) -> Result<(), Error>;
}

impl<'a, T: Expect> Expect for &'a mut T {
    fn expect<N: Needle>(&mut self, needle: N) -> (r: Result<Captures, Error>) {
        T::expect(*self, needle)
    }

    fn check<N: Needle>(&mut self, needle: N) -> (r: Result<Captures, Error>) {
        T::check(*self, needle)
    }

    fn is_matched<N: Needle>(&mut self, needle: N) -> (r: Result<bool, Error>) {
        T::is_matched(*self, needle)
    }

    fn send(&mut self, buf: &[u8]) -> (r: Result<(), Error>)
        ensures
            exists|m: &mut T|
                #![trigger call_ensures(T::send, (m, buf), r)]
                mut_ref_current(m) == **old(self) && mut_ref_future(m) == **final(self)
                    && call_ensures(T::send, (m, buf), r),
    {
        T::send(*self, buf)
    }

    fn send_line(&mut self, buf: &[u8]) -> (r: Result<(), Error>)
        ensures
            exists|m: &mut T|
                #![trigger call_ensures(T::send_line, (m, buf), r)]
                mut_ref_current(m) == **old(self) && mut_ref_future(m) == **final(self)
                    && call_ensures(T::send_line, (m, buf), r),
    {
        T::send_line(*self, buf)
    }
}

} // verus!
