//! The module contains [`Lookup`].

use vstd::prelude::*;

use crate::bytes::{append_bytes, take_front};
use crate::captures::{lemma_right_most, right_most, Captures};
use crate::error::Error;
use crate::needle::{Match, Needle};

verus! {

broadcast use vstd::seq::group_seq_axioms;

/// Runs `needle` on `buf`. On a match the bytes up to the end of the right most
/// match are taken out of `buf` and returned in the captures with the matches.
pub(crate) fn check<N: Needle>(buf: &mut Vec<u8>, needle: N, eof: bool) -> (r: Result<
    Option<Captures>,
    Error,
>)
    ensures
        match r {
            Err(e) => {
                &&& needle.spec_check(old(buf)@, eof) == Err::<Seq<Match>, Error>(e)
                &&& final(buf)@ == old(buf)@
            },
            Ok(None) => {
                &&& needle.spec_check(old(buf)@, eof) == Ok::<Seq<Match>, Error>(Seq::empty())
                &&& final(buf)@ == old(buf)@
            },
            Ok(Some(c)) => {
                &&& needle.spec_check(old(buf)@, eof) == Ok::<Seq<Match>, Error>(c.spec_matches())
                &&& c.spec_matches().len() > 0
                &&& right_most(c.spec_matches()) <= old(buf)@.len()
                &&& c.spec_buf() == old(buf)@.take(right_most(c.spec_matches()) as int)
                &&& final(buf)@ == old(buf)@.skip(right_most(c.spec_matches()) as int)
                &&& old(buf)@ == c.spec_buf() + final(buf)@
            },
        },
{
    let found = match needle.check(buf.as_slice(), eof) {
        Ok(found) => found,
        Err(e) => {
            return Err(e);
        },
    };
    if found.len() == 0 {
        assert(found@ =~= Seq::<Match>::empty());
        return Ok(None);
    }
    let end_index = Captures::right_most_index(found.as_slice());
    proof {
        lemma_right_most(found@, buf@.len());
    }
    let involved_bytes = take_front(buf, end_index);
    Ok(Some(Captures::new(involved_bytes, found)))
}

/// A helper action for an interact session.
///
/// It holds a buffer to be able to run different checks using [`Needle`],
/// via [`Lookup::on`].
#[derive(Debug, Clone)]
pub struct Lookup {
    buf: Vec<u8>,
}

impl Lookup {
    /// The bytes that were given to [`Lookup::on`] and not matched yet.
    pub closed spec fn spec_buf(&self) -> Seq<u8> {
        self.buf@
    }

    /// Create a lookup object.
    pub fn new() -> (r: Self)
        ensures
            r.spec_buf() == Seq::<u8>::empty(),
    {
        Self { buf: Vec::new() }
    }

    /// Checks whether the buffer will be matched and returns [`Captures`] in such case.
    ///
    /// The given bytes are appended to the ones kept from earlier calls, and a match
    /// takes the bytes up to its end out of the kept ones.
    pub fn on<N: Needle>(&mut self, buf: &[u8], eof: bool, pattern: N) -> (r: Result<
        Option<Captures>,
        Error,
    >)
        ensures
            ({
                let joined = old(self).spec_buf() + buf@;
                match r {
                    Err(e) => {
                        &&& pattern.spec_check(joined, eof) == Err::<Seq<Match>, Error>(e)
                        &&& final(self).spec_buf() == joined
                    },
                    Ok(None) => {
                        &&& pattern.spec_check(joined, eof) == Ok::<Seq<Match>, Error>(
                            Seq::empty(),
                        )
                        &&& final(self).spec_buf() == joined
                    },
                    Ok(Some(c)) => {
                        &&& pattern.spec_check(joined, eof) == Ok::<Seq<Match>, Error>(
                            c.spec_matches(),
                        )
                        &&& c.spec_matches().len() > 0
                        &&& c.spec_buf() == joined.take(right_most(c.spec_matches()) as int)
                        &&& final(self).spec_buf() == joined.skip(
                            right_most(c.spec_matches()) as int,
                        )
                        &&& joined == c.spec_buf() + final(self).spec_buf()
                    },
                }
            }),
    {
        append_bytes(&mut self.buf, buf);
        check(&mut self.buf, pattern, eof)
    }

    /// Cleans internal buffer.
    ///
    /// So the next [`Lookup::on`] can be called with no other data involved.
    pub fn clear(&mut self)
        ensures
            final(self).spec_buf() == Seq::<u8>::empty(),
    {
        self.buf = Vec::new();
    }
}

impl Default for Lookup {
    fn default() -> (r: Self)
        ensures
            r.spec_buf() == Seq::<u8>::empty(),
    {
        Self::new()
    }
}

} // verus!
