//! [Captures] is the result of a successful lookup: the bytes involved and the matches.

use vstd::prelude::*;

use crate::needle::{spans_within, Match};

verus! {

broadcast use vstd::seq::group_seq_axioms;

/// The smallest start of the matches, or 0 when there are none.
pub open spec fn left_most(matches: Seq<Match>) -> usize
    decreases matches.len(),
{
    if matches.len() == 0 {
        0
    } else if matches.len() == 1 {
        matches[0].start()
    } else {
        let rest = left_most(matches.drop_first());
        if matches[0].start() <= rest {
            matches[0].start()
        } else {
            rest
        }
    }
}

/// The greatest end of the matches, or 0 when there are none.
pub open spec fn right_most(matches: Seq<Match>) -> usize
    decreases matches.len(),
{
    if matches.len() == 0 {
        0
    } else {
        let rest = right_most(matches.drop_first());
        if matches[0].end() >= rest {
            matches[0].end()
        } else {
            rest
        }
    }
}

/// The left most start is the least start of all matches and is the start of one of them.
pub proof fn lemma_left_most(matches: Seq<Match>)
    requires
        matches.len() > 0,
    ensures
        forall|i: int| 0 <= i < matches.len() ==> left_most(matches) <= #[trigger] matches[i].start(),
        exists|i: int| 0 <= i < matches.len() && left_most(matches) == #[trigger] matches[i].start(),
    decreases matches.len(),
{
    if matches.len() == 1 {
        assert(left_most(matches) == matches[0].start());
    } else {
        let rest = matches.drop_first();
        lemma_left_most(rest);
        assert forall|i: int| 0 <= i < matches.len() implies left_most(matches)
            <= #[trigger] matches[i].start() by {
            if i > 0 {
                assert(matches[i] == rest[i - 1]);
            }
        }
        if matches[0].start() > left_most(rest) {
            let j = choose|j: int| 0 <= j < rest.len() && left_most(rest) == #[trigger] rest[j].start();
            assert(matches[j + 1] == rest[j]);
        }
    }
}

/// The right most end is no smaller than any end of the matches, and no greater
/// than a bound that all ends respect.
pub proof fn lemma_right_most(matches: Seq<Match>, len: nat)
    requires
        spans_within(matches, len),
    ensures
        forall|i: int| 0 <= i < matches.len() ==> #[trigger] matches[i].end() <= right_most(matches),
        right_most(matches) <= len,
        matches.len() > 0 ==> exists|i: int|
            0 <= i < matches.len() && right_most(matches) == #[trigger] matches[i].end(),
    decreases matches.len(),
{
    if matches.len() > 0 {
        let rest = matches.drop_first();
        assert(spans_within(rest, len)) by {
            assert forall|i: int| 0 <= i < rest.len() implies rest[i].start() <= #[trigger] rest[i].end()
                <= len by {
                assert(rest[i] == matches[i + 1]);
            }
        }
        lemma_right_most(rest, len);
        assert(matches[0].start() <= matches[0].end() <= len);
        assert forall|i: int| 0 <= i < matches.len() implies #[trigger] matches[i].end() <= right_most(
            matches,
        ) by {
            if i > 0 {
                assert(matches[i] == rest[i - 1]);
            }
        }
        if rest.len() > 0 && matches[0].end() < right_most(rest) {
            let j = choose|j: int| 0 <= j < rest.len() && right_most(rest) == #[trigger] rest[j].end();
            assert(matches[j + 1] == rest[j]);
        }
    }
}

/// A single match that ends where the bytes end, as each single match that a
/// check returns does: the bytes are then those before the match followed by the
/// match itself, that is [Captures::as_bytes] is [Captures::before] followed by the
/// bytes that [Captures::get] gives for the match.
pub proof fn lemma_before_then_match(buf: Seq<u8>, m: Match)
    requires
        m.start() <= m.end(),
        m.end() == buf.len(),
    ensures
        buf == buf.take(left_most(seq![m]) as int) + buf.subrange(
            m.start() as int,
            m.end() as int,
        ),
{
    assert(left_most(seq![m]) == m.start());
    assert(buf =~= buf.take(m.start() as int) + buf.subrange(m.start() as int, m.end() as int));
}

/// Captures is a representation of a matched pattern.
///
/// It might represent an empty match.
#[derive(Debug, PartialEq, Eq)]
pub struct Captures {
    buf: Vec<u8>,
    matches: Vec<Match>,
}

impl Captures {
    #[verifier::type_invariant]
    spec fn well_formed(&self) -> bool {
        spans_within(self.matches@, self.buf@.len())
    }

    /// The bytes involved in the match.
    pub closed spec fn spec_buf(&self) -> Seq<u8> {
        self.buf@
    }

    /// The matches, in the order the needle gave them.
    pub closed spec fn spec_matches(&self) -> Seq<Match> {
        self.matches@
    }

    /// New returns an instance of Captures.
    pub fn new(buf: Vec<u8>, matches: Vec<Match>) -> (r: Self)
        requires
            spans_within(matches@, buf@.len()),
        ensures
            r.spec_buf() == buf@,
            r.spec_matches() == matches@,
    {
        Self { buf, matches }
    }

    /// is_empty verifies if any matches were actually found.
    pub fn is_empty(&self) -> (r: bool)
        ensures
            r == (self.spec_matches().len() == 0),
    {
        self.matches.len() == 0
    }

    /// get returns a match by index.
    pub fn get(&self, index: usize) -> (r: Option<&[u8]>)
        ensures
            index < self.spec_matches().len() ==> (r matches Some(s) && s@ == self.spec_buf().subrange(
                self.spec_matches()[index as int].start() as int,
                self.spec_matches()[index as int].end() as int,
            )),
            index >= self.spec_matches().len() ==> r is None,
    {
        proof {
            use_type_invariant(self);
        }
        if index < self.matches.len() {
            let m = &self.matches[index];
            Some(vstd::slice::slice_subrange(self.buf.as_slice(), m.start(), m.end()))
        } else {
            None
        }
    }

    /// Matches returns the bytes of each match, in order.
    pub fn matches(&self) -> (r: MatchIter<'_>)
        ensures
            r.spec_buf() == self.spec_buf(),
            r.spec_remaining() == self.spec_matches(),
    {
        MatchIter::new(self)
    }

    /// before returns the bytes before the match.
    pub fn before(&self) -> (r: &[u8])
        ensures
            r@ == self.spec_buf().take(left_most(self.spec_matches()) as int),
    {
        proof {
            use_type_invariant(self);
        }
        let i = self.left_most_index();
        vstd::slice::slice_subrange(self.buf.as_slice(), 0, i)
    }

    /// as_bytes returns all bytes involved in a match, e.g. before the match and
    /// in a match itself.
    ///
    /// In most cases the returned value equals the concatenated [Self::before] and [Self::matches].
    /// But sometimes like in case of [crate::Regex] it may have a grouping so [Self::matches] might overlap, therefore
    /// it will no longer be true.
    pub fn as_bytes(&self) -> (r: &[u8])
        ensures
            r@ == self.spec_buf(),
    {
        self.buf.as_slice()
    }

    fn left_most_index(&self) -> (r: usize)
        ensures
            r == left_most(self.spec_matches()),
            r <= self.spec_buf().len(),
    {
        proof {
            use_type_invariant(self);
        }
        let n = self.matches.len();
        if n == 0 {
            return 0;
        }
        let mut i = n - 1;
        let mut min = self.matches[i].start();
        proof {
            assert(self.matches@[i as int].end() <= self.buf@.len());
            assert(self.matches@.skip(i as int) =~= seq![self.matches@[i as int]]);
        }
        while i > 0
            invariant
                0 <= i < n,
                n == self.matches@.len(),
                min == left_most(self.matches@.skip(i as int)),
                min <= self.buf@.len(),
                spans_within(self.matches@, self.buf@.len()),
            decreases i,
        {
            i = i - 1;
            let s = self.matches[i].start();
            proof {
                let tail = self.matches@.skip(i as int);
                assert(tail.drop_first() =~= self.matches@.skip(i + 1));
                assert(tail[0] == self.matches@[i as int]);
                assert(self.matches@[i as int].start() <= self.matches@[i as int].end());
            }
            if s <= min {
                min = s;
            }
        }
        assert(self.matches@.skip(0) =~= self.matches@);
        min
    }

    /// The greatest end of the matches, or 0 when there are none.
    pub fn right_most_index(matches: &[Match]) -> (r: usize)
        ensures
            r == right_most(matches@),
    {
        let n = matches.len();
        let mut i = n;
        let mut max: usize = 0;
        assert(matches@.skip(n as int) =~= Seq::<Match>::empty());
        while i > 0
            invariant
                0 <= i <= n,
                n == matches@.len(),
                max == right_most(matches@.skip(i as int)),
            decreases i,
        {
            i = i - 1;
            let e = matches[i].end();
            proof {
                let tail = matches@.skip(i as int);
                assert(tail.drop_first() =~= matches@.skip(i + 1));
                assert(tail[0] == matches@[i as int]);
            }
            if e >= max {
                max = e;
            }
        }
        assert(matches@.skip(0) =~= matches@);
        max
    }
}

impl Clone for Captures {
    fn clone(&self) -> (r: Self)
        ensures
            r.spec_buf() == self.spec_buf(),
            r.spec_matches() == self.spec_matches(),
    {
        proof {
            use_type_invariant(self);
        }
        let buf = self.buf.clone();
        let matches = self.matches.clone();
        assert(buf@ =~= self.buf@);
        assert(matches@ =~= self.matches@);
        Captures { buf, matches }
    }
}

impl std::ops::Index<usize> for Captures {
    type Output = [u8];

    fn index(&self, index: usize) -> (r: &[u8])
        ensures
            r@ == self.spec_buf().subrange(
                self.spec_matches()[index as int].start() as int,
                self.spec_matches()[index as int].end() as int,
            ),
    {
        proof {
            use_type_invariant(self);
        }
        let m = &self.matches[index];
        vstd::slice::slice_subrange(self.buf.as_slice(), m.start(), m.end())
    }
}

impl vstd::std_specs::core::IndexSpecImpl<usize> for Captures {
    open spec fn index_req(&self, index: &usize) -> bool {
        *index < self.spec_matches().len()
    }
}

/// MatchIter walks over the bytes of each match of a [Captures].
#[derive(Debug)]
pub struct MatchIter<'a> {
    buf: &'a [u8],
    matches: &'a [Match],
    pos: usize,
}

impl<'a> MatchIter<'a> {
    #[verifier::type_invariant]
    spec fn well_formed(&self) -> bool {
        &&& spans_within(self.matches@, self.buf@.len())
        &&& self.pos <= self.matches@.len()
    }

    /// The bytes the matches refer to.
    pub closed spec fn spec_buf(&self) -> Seq<u8> {
        self.buf@
    }

    /// The matches that are still to be walked over.
    pub closed spec fn spec_remaining(&self) -> Seq<Match> {
        self.matches@.skip(self.pos as int)
    }

    fn new(captures: &'a Captures) -> (r: Self)
        ensures
            r.spec_buf() == captures.spec_buf(),
            r.spec_remaining() == captures.spec_matches(),
    {
        proof {
            use_type_invariant(captures);
        }
        let r = Self { buf: captures.buf.as_slice(), matches: captures.matches.as_slice(), pos: 0 };
        assert(r.matches@.skip(0) =~= r.matches@);
        r
    }

    /// The bytes of the next match, if there is one.
    pub fn next(&mut self) -> (r: Option<&'a [u8]>)
        ensures
            final(self).spec_buf() == old(self).spec_buf(),
            old(self).spec_remaining().len() == 0 ==> r is None && final(self).spec_remaining().len() == 0,
            old(self).spec_remaining().len() > 0 ==> {
                let m = old(self).spec_remaining()[0];
                &&& (r matches Some(s) && s@ == old(self).spec_buf().subrange(
                    m.start() as int,
                    m.end() as int,
                ))
                &&& final(self).spec_remaining() == old(self).spec_remaining().drop_first()
            },
    {
        proof {
            use_type_invariant(&*self);
        }
        if self.pos < self.matches.len() {
            let m = &self.matches[self.pos];
            let s = vstd::slice::slice_subrange(self.buf, m.start(), m.end());
            proof {
                assert(self.matches@.skip(self.pos as int)[0] == self.matches@[self.pos as int]);
                assert(self.matches@.skip(self.pos as int).drop_first() =~= self.matches@.skip(
                    self.pos + 1,
                ));
            }
            self.pos = self.pos + 1;
            Some(s)
        } else {
            None
        }
    }

    /// The number of matches that are still to be walked over.
    pub fn len(&self) -> (r: usize)
        ensures
            r == self.spec_remaining().len(),
    {
        proof {
            use_type_invariant(self);
        }
        self.matches.len() - self.pos
    }

    /// Collects the bytes of the remaining matches, in order.
    pub fn collect_all(self) -> (r: Vec<&'a [u8]>)
        ensures
            r@.len() == self.spec_remaining().len(),
            forall|i: int|
                0 <= i < r@.len() ==> (#[trigger] r@[i])@ == self.spec_buf().subrange(
                    self.spec_remaining()[i].start() as int,
                    self.spec_remaining()[i].end() as int,
                ),
    {
        let ghost buf = self.spec_buf();
        let ghost all = self.spec_remaining();
        let mut it = self;
        let mut r: Vec<&'a [u8]> = Vec::new();
        assert(all.skip(0) =~= all);
        loop
            invariant
                it.spec_buf() == buf,
                r@.len() + it.spec_remaining().len() == all.len(),
                it.spec_remaining() == all.skip(r@.len() as int),
                forall|i: int|
                    0 <= i < r@.len() ==> (#[trigger] r@[i])@ == buf.subrange(
                        all[i].start() as int,
                        all[i].end() as int,
                    ),
            ensures
                r@.len() == all.len(),
                forall|i: int|
                    0 <= i < r@.len() ==> (#[trigger] r@[i])@ == buf.subrange(
                        all[i].start() as int,
                        all[i].end() as int,
                    ),
            decreases it.spec_remaining().len(),
        {
            let ghost k: int = r@.len() as int;
            match it.next() {
                Some(s) => {
                    proof {
                        assert(all.skip(k)[0] == all[k]);
                        assert(all.skip(k).drop_first() =~= all.skip(k + 1));
                    }
                    r.push(s);
                },
                None => {
                    break ;
                },
            }
        }
        r
    }
}

} // verus!
