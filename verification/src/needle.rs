//! A module which contains a [Needle] trait and a list of implementations.
//! [Needle] is used for search in a byte stream.

use vstd::prelude::*;
use vstd::utf8::*;

use crate::error::Error;
use crate::regex_engine::{compile_regex, regex_capture_groups, regex_compiles, regex_groups};

verus! {

broadcast use vstd::seq::group_seq_axioms;

/// Match structure represents a range of bytes where a match was found.
#[derive(Debug, Clone, Copy, PartialEq, Eq, Structural)]
pub struct Match {
    start: usize,
    end: usize,
}

/// The match which spans `start..end`.
pub closed spec fn span(start: usize, end: usize) -> Match {
    Match { start, end }
}

/// A match is made of its two bounds: `span` gives them back, and two matches
/// with the same bounds are the same match.
pub broadcast proof fn lemma_span(start: usize, end: usize)
    ensures
        #[trigger] span(start, end).spec_start() == start,
        span(start, end).spec_end() == end,
{
}

/// Two matches with the same bounds are equal.
pub proof fn lemma_match_ext(a: Match, b: Match)
    requires
        a.spec_start() == b.spec_start(),
        a.spec_end() == b.spec_end(),
    ensures
        a == b,
{
}

impl Match {
    /// The start index of the match.
    pub closed spec fn spec_start(&self) -> usize {
        self.start
    }

    /// The end index of the match.
    pub closed spec fn spec_end(&self) -> usize {
        self.end
    }

    /// New constructs an instance of a Match.
    pub fn new(start: usize, end: usize) -> (m: Self)
        ensures
            m == span(start, end),
            m.spec_start() == start,
            m.spec_end() == end,
    {
        Self { start, end }
    }

    /// Start returns a start index of a match.
    #[verifier::when_used_as_spec(spec_start)]
    pub fn start(&self) -> (r: usize)
        ensures
            r == self.spec_start(),
    {
        self.start
    }

    /// End returns an end index of a match.
    #[verifier::when_used_as_spec(spec_end)]
    pub fn end(&self) -> (r: usize)
        ensures
            r == self.spec_end(),
    {
        self.end
    }
}

/// Every match of `ms` is a range `start..end` inside a buffer of length `len`.
pub open spec fn spans_within(ms: Seq<Match>, len: nat) -> bool {
    forall|i: int| 0 <= i < ms.len() ==> ms[i].start() <= #[trigger] ms[i].end() <= len
}

/// Needle is an interface for search of a match in a buffer.
///
/// An implementation states in `spec_check` what `check` gives, and returns
/// only ranges that lie inside the buffer it was given.
pub trait Needle {
    /// What `check` gives for a buffer and the EOF indication.
    spec fn spec_check(&self, buf: Seq<u8>, eof: bool) -> Result<Seq<Match>, Error>;

    /// Function returns all matches that were found.
    fn check(&self, buf: &[u8], eof: bool) -> (r: Result<Vec<Match>, Error>)
        ensures
            match r {
                Ok(v) => self.spec_check(buf@, eof) == Ok::<Seq<Match>, Error>(v@) && spans_within(
                    v@,
                    buf@.len(),
                ),
                Err(e) => self.spec_check(buf@, eof) == Err::<Seq<Match>, Error>(e),
            },
    ;
}

// ---------------------------------------------------------------------------
// Search of a byte string.
/// `needle` occurs in `buf` at position `l`.
pub open spec fn occurs_at(needle: Seq<u8>, buf: Seq<u8>, l: int) -> bool {
    &&& 0 <= l
    &&& l + needle.len() <= buf.len()
    &&& buf.subrange(l, l + needle.len()) == needle
}

/// The first position `l >= from`, `l < buf.len()`, at which `needle` occurs in `buf`.
pub open spec fn search_from(needle: Seq<u8>, buf: Seq<u8>, from: int) -> Option<int>
    decreases buf.len() - from,
{
    if from < 0 || from >= buf.len() || from + needle.len() > buf.len() {
        None
    } else if occurs_at(needle, buf, from) {
        Some(from)
    } else {
        search_from(needle, buf, from + 1)
    }
}

/// The search of a byte string finds its leftmost occurrence: the position it
/// gives holds an occurrence and no position before it does; where it finds
/// none, no position in the buffer holds one.
pub proof fn lemma_search_from_leftmost(needle: Seq<u8>, buf: Seq<u8>, from: int)
    requires
        0 <= from,
    ensures
        search_from(needle, buf, from) matches Some(l) ==> {
            &&& from <= l < buf.len()
            &&& occurs_at(needle, buf, l)
            &&& forall|k: int| from <= k < l ==> !occurs_at(needle, buf, k)
        },
        search_from(needle, buf, from) is None ==> forall|k: int|
            from <= k < buf.len() ==> !occurs_at(needle, buf, k),
    decreases buf.len() - from,
{
    if from >= buf.len() || from + needle.len() > buf.len() {
    } else if occurs_at(needle, buf, from) {
    } else {
        lemma_search_from_leftmost(needle, buf, from + 1);
    }
}

/// What the byte string `needle` finds in `buf`: its leftmost occurrence, if any.
pub open spec fn bytes_check(needle: Seq<u8>, buf: Seq<u8>) -> Seq<Match> {
    match search_from(needle, buf, 0) {
        Some(l) => seq![span(l as usize, (l + needle.len()) as usize)],
        None => Seq::empty(),
    }
}

/// Compares `needle` with the bytes of `buf` that start at `l`.
fn equal_at(needle: &[u8], buf: &[u8], l: usize) -> (r: bool)
    requires
        l + needle@.len() <= buf@.len(),
    ensures
        r == (buf@.subrange(l as int, l + needle@.len()) == needle@),
{
    let blen = buf.len();
    let mut i: usize = 0;
    while i < needle.len()
        invariant
            blen == buf@.len(),
            i <= needle@.len(),
            l + needle@.len() <= buf@.len(),
            forall|k: int| 0 <= k < i ==> buf@[l + k] == needle@[k],
        decreases needle@.len() - i,
    {
        if buf[l + i] != needle[i] {
            assert(buf@.subrange(l as int, l + needle@.len())[i as int] != needle@[i as int]);
            return false;
        }
        i = i + 1;
    }
    assert(buf@.subrange(l as int, l + needle@.len()) =~= needle@);
    true
}

/// Finds the leftmost occurrence of `needle` in `buf`, at a position before the end of `buf`.
pub fn find_bytes(needle: &[u8], buf: &[u8]) -> (r: Option<usize>)
    ensures
        match r {
            Some(l) => search_from(needle@, buf@, 0) == Some(l as int),
            None => search_from(needle@, buf@, 0) is None,
        },
{
    let n = needle.len();
    if buf.len() < n {
        return None;
    }
    let mut l: usize = 0;
    while l < buf.len()
        invariant
            l <= buf@.len(),
            n == needle@.len(),
            n <= buf@.len(),
            search_from(needle@, buf@, 0) == search_from(needle@, buf@, l as int),
        decreases buf@.len() - l,
    {
        if n > buf.len() - l {
            return None;
        }
        if equal_at(needle, buf, l) {
            return Some(l);
        }
        l = l + 1;
    }
    None
}

fn check_bytes(needle: &[u8], buf: &[u8]) -> (r: Vec<Match>)
    ensures
        r@ == bytes_check(needle@, buf@),
        spans_within(r@, buf@.len()),
{
    let mut v = Vec::new();
    let blen = buf.len();
    match find_bytes(needle, buf) {
        Some(l) => {
            proof {
                lemma_search_from_leftmost(needle@, buf@, 0);
            }
            v.push(Match::new(l, l + needle.len()));
            assert(v@ =~= bytes_check(needle@, buf@));
        },
        None => {
            assert(v@ =~= bytes_check(needle@, buf@));
        },
    }
    v
}

impl Needle for [u8] {
    open spec fn spec_check(&self, buf: Seq<u8>, eof: bool) -> Result<Seq<Match>, Error> {
        Ok(bytes_check(self@, buf))
    }

    fn check(&self, buf: &[u8], eof: bool) -> (r: Result<Vec<Match>, Error>) {
        Ok(check_bytes(self, buf))
    }
}

impl<'a> Needle for &'a [u8] {
    open spec fn spec_check(&self, buf: Seq<u8>, eof: bool) -> Result<Seq<Match>, Error> {
        Ok(bytes_check(self@, buf))
    }

    fn check(&self, buf: &[u8], eof: bool) -> (r: Result<Vec<Match>, Error>) {
        Ok(check_bytes(*self, buf))
    }
}

impl Needle for str {
    open spec fn spec_check(&self, buf: Seq<u8>, eof: bool) -> Result<Seq<Match>, Error> {
        Ok(bytes_check(encode_utf8(self@), buf))
    }

    fn check(&self, buf: &[u8], eof: bool) -> (r: Result<Vec<Match>, Error>) {
        Ok(check_bytes(self.as_bytes(), buf))
    }
}

impl<'a> Needle for &'a str {
    open spec fn spec_check(&self, buf: Seq<u8>, eof: bool) -> Result<Seq<Match>, Error> {
        Ok(bytes_check(encode_utf8(self@), buf))
    }

    fn check(&self, buf: &[u8], eof: bool) -> (r: Result<Vec<Match>, Error>) {
        Ok(check_bytes(self.as_bytes(), buf))
    }
}

impl Needle for String {
    open spec fn spec_check(&self, buf: Seq<u8>, eof: bool) -> Result<Seq<Match>, Error> {
        Ok(bytes_check(encode_utf8(self@), buf))
    }

    fn check(&self, buf: &[u8], eof: bool) -> (r: Result<Vec<Match>, Error>) {
        Ok(check_bytes(self.as_str().as_bytes(), buf))
    }
}

impl Needle for u8 {
    open spec fn spec_check(&self, buf: Seq<u8>, eof: bool) -> Result<Seq<Match>, Error> {
        Ok(bytes_check(seq![*self], buf))
    }

    fn check(&self, buf: &[u8], eof: bool) -> (r: Result<Vec<Match>, Error>) {
        let one = [*self];
        let s = vstd::array::array_as_slice(&one);
        assert(s@ =~= seq![*self]);
        Ok(check_bytes(s, buf))
    }
}

/// The UTF-8 encoding of a character.
fn encode_char(c: char) -> (r: Vec<u8>)
    ensures
        r@ == encode_utf8(seq![c]),
{
    let v = c as u32;
    proof {
        char_is_scalar(c);
        assert(encode_utf8(seq![c]) =~= encode_scalar(v) + encode_utf8(seq![c].drop_first()));
        assert(seq![c].drop_first() =~= Seq::<char>::empty());
    }
    let mut r = Vec::new();
    if v <= 0x7F {
        r.push((v & 0x7F) as u8);
    } else if v <= 0x7FF {
        r.push(0xC0 | ((v >> 6) & 0x1F) as u8);
        r.push(0x80 | (v & 0x3F) as u8);
    } else if v <= 0xFFFF {
        r.push(0xE0 | ((v >> 12) & 0x0F) as u8);
        r.push(0x80 | ((v >> 6) & 0x3F) as u8);
        r.push(0x80 | (v & 0x3F) as u8);
    } else {
        r.push(0xF0 | ((v >> 18) & 0x7) as u8);
        r.push(0x80 | ((v >> 12) & 0x3F) as u8);
        r.push(0x80 | ((v >> 6) & 0x3F) as u8);
        r.push(0x80 | (v & 0x3F) as u8);
    }
    assert(r@ =~= encode_scalar(v));
    r
}

impl Needle for char {
    open spec fn spec_check(&self, buf: Seq<u8>, eof: bool) -> Result<Seq<Match>, Error> {
        Ok(bytes_check(encode_utf8(seq![*self]), buf))
    }

    fn check(&self, buf: &[u8], eof: bool) -> (r: Result<Vec<Match>, Error>) {
        let bytes = encode_char(*self);
        Ok(check_bytes(bytes.as_slice(), buf))
    }
}

// ---------------------------------------------------------------------------
// Eof and NBytes.
/// Eof considers a match when an EOF is reached.
pub struct Eof;

impl Needle for Eof {
    open spec fn spec_check(&self, buf: Seq<u8>, eof: bool) -> Result<Seq<Match>, Error> {
        if eof {
            Ok(seq![span(0, buf.len() as usize)])
        } else {
            Ok(Seq::empty())
        }
    }

    fn check(&self, buf: &[u8], eof: bool) -> (r: Result<Vec<Match>, Error>) {
        let mut v = Vec::new();
        if eof {
            v.push(Match::new(0, buf.len()));
        }
        proof {
            if eof {
                assert(v@ =~= seq![span(0, buf@.len() as usize)]);
            } else {
                assert(v@ =~= Seq::<Match>::empty());
            }
        }
        Ok(v)
    }
}

/// NBytes matches N bytes from the stream.
pub struct NBytes(pub usize);

impl NBytes {
    fn count(&self) -> (r: usize)
        ensures
            r == self.0,
    {
        self.0
    }
}

impl Needle for NBytes {
    open spec fn spec_check(&self, buf: Seq<u8>, eof: bool) -> Result<Seq<Match>, Error> {
        if buf.len() >= self.0 {
            Ok(seq![span(0, self.0)])
        } else {
            Ok(Seq::empty())
        }
    }

    fn check(&self, buf: &[u8], eof: bool) -> (r: Result<Vec<Match>, Error>) {
        let mut v = Vec::new();
        if buf.len() >= self.count() {
            v.push(Match::new(0, self.count()));
            assert(v@ =~= seq![span(0, self.0)]);
        } else {
            assert(v@ =~= Seq::<Match>::empty());
        }
        Ok(v)
    }
}

// ---------------------------------------------------------------------------
// Delegation through references and boxes.
impl<'a, T: Needle> Needle for &'a T {
    open spec fn spec_check(&self, buf: Seq<u8>, eof: bool) -> Result<Seq<Match>, Error> {
        (**self).spec_check(buf, eof)
    }

    fn check(&self, buf: &[u8], eof: bool) -> (r: Result<Vec<Match>, Error>) {
        (**self).check(buf, eof)
    }
}

impl<'a> Needle for Box<dyn Needle + 'a> {
    open spec fn spec_check(&self, buf: Seq<u8>, eof: bool) -> Result<Seq<Match>, Error> {
        (**self).spec_check(buf, eof)
    }

    fn check(&self, buf: &[u8], eof: bool) -> (r: Result<Vec<Match>, Error>) {
        (**self).check(buf, eof)
    }
}

// ---------------------------------------------------------------------------
// Any.
/// Any uses all provided lookups and returns the matches of the first one
/// that finds something.
///
/// It checks lookups in the order they were provided.
pub struct Any<I>(pub I);

impl<'a> Any<Vec<Box<dyn Needle + 'a>>> {
    /// Boxed expects a list of boxed lookups.
    pub fn boxed(v: Vec<Box<dyn Needle + 'a>>) -> (r: Self)
        ensures
            r.0 == v,
    {
        Self(v)
    }
}

/// What a list of needles finds: the matches of the first needle that finds
/// something, an error of a needle met before it, or nothing.
pub open spec fn any_check<T: Needle>(needles: Seq<T>, buf: Seq<u8>, eof: bool) -> Result<
    Seq<Match>,
    Error,
>
    decreases needles.len(),
{
    if needles.len() == 0 {
        Ok(Seq::empty())
    } else {
        match needles[0].spec_check(buf, eof) {
            Err(e) => Err(e),
            Ok(v) => if v.len() > 0 {
                Ok(v)
            } else {
                any_check(needles.drop_first(), buf, eof)
            },
        }
    }
}

/// A needle's answer that is no error and holds no match.
pub open spec fn finds_nothing(r: Result<Seq<Match>, Error>) -> bool {
    r matches Ok(v) && v.len() == 0
}

/// What a list of needles finds is what its first decisive needle gives: the
/// first one, at `j`, that fails or finds something, every needle before it
/// finding nothing.
pub proof fn lemma_any_check_first<T: Needle>(needles: Seq<T>, buf: Seq<u8>, eof: bool, j: int)
    requires
        0 <= j < needles.len(),
        !finds_nothing(needles[j].spec_check(buf, eof)),
        forall|k: int|
            0 <= k < j ==> finds_nothing(#[trigger] needles[k].spec_check(buf, eof)),
    ensures
        any_check(needles, buf, eof) == needles[j].spec_check(buf, eof),
    decreases j,
{
    if j > 0 {
        let rest = needles.drop_first();
        assert(finds_nothing(needles[0].spec_check(buf, eof)));
        assert forall|k: int| 0 <= k < j - 1 implies finds_nothing(
            #[trigger] rest[k].spec_check(buf, eof),
        ) by {
            assert(rest[k] == needles[k + 1]);
        }
        assert(rest[j - 1] == needles[j]);
        lemma_any_check_first(rest, buf, eof, j - 1);
    }
}

/// When every needle of a list finds nothing, the list finds nothing.
pub proof fn lemma_any_check_none<T: Needle>(needles: Seq<T>, buf: Seq<u8>, eof: bool)
    requires
        forall|k: int|
            0 <= k < needles.len() ==> finds_nothing(#[trigger] needles[k].spec_check(buf, eof)),
    ensures
        any_check(needles, buf, eof) == Ok::<Seq<Match>, Error>(Seq::empty()),
    decreases needles.len(),
{
    if needles.len() > 0 {
        let rest = needles.drop_first();
        assert(finds_nothing(needles[0].spec_check(buf, eof)));
        assert forall|k: int| 0 <= k < rest.len() implies finds_nothing(
            #[trigger] rest[k].spec_check(buf, eof),
        ) by {
            assert(rest[k] == needles[k + 1]);
        }
        lemma_any_check_none(rest, buf, eof);
    }
}

/// `r` is what a list of needles is to find: the answer of the first needle, in
/// the order given, that fails or finds something, every needle before it
/// finding nothing; and nothing when every needle finds nothing.
pub open spec fn first_decisive<T: Needle>(
    needles: Seq<T>,
    buf: Seq<u8>,
    eof: bool,
    r: Result<Seq<Match>, Error>,
) -> bool {
    &&& forall|j: int|
        0 <= j < needles.len() && !finds_nothing(#[trigger] needles[j].spec_check(buf, eof)) && (
        forall|k: int| 0 <= k < j ==> finds_nothing(needles[k].spec_check(buf, eof))) ==> r
            == needles[j].spec_check(buf, eof)
    &&& (forall|k: int| 0 <= k < needles.len() ==> finds_nothing(needles[k].spec_check(buf, eof)))
        ==> r == Ok::<Seq<Match>, Error>(Seq::empty())
}

/// What a list of needles finds is its first decisive answer, over all the
/// needles, in the order given.
pub proof fn lemma_any_check_decisive<T: Needle>(needles: Seq<T>, buf: Seq<u8>, eof: bool)
    ensures
        first_decisive(needles, buf, eof, any_check(needles, buf, eof)),
{
    assert forall|j: int|
        0 <= j < needles.len() && !finds_nothing(#[trigger] needles[j].spec_check(buf, eof)) && (
        forall|k: int| 0 <= k < j ==> finds_nothing(needles[k].spec_check(buf, eof))) implies any_check(
        needles,
        buf,
        eof,
    ) == needles[j].spec_check(buf, eof) by {
        lemma_any_check_first(needles, buf, eof, j);
    }
    if forall|k: int| 0 <= k < needles.len() ==> finds_nothing(needles[k].spec_check(buf, eof)) {
        lemma_any_check_none(needles, buf, eof);
    }
}

/// Every form of [Any] (an array, a reference to one, a slice, a vector) finds
/// the first decisive answer of all the needles it holds, in their order.
pub proof fn lemma_any_forms<'a, T: Needle, const N: usize>(
    array: [T; N],
    array_ref: &'a [T; N],
    slice: &'a [T],
    vec: Vec<T>,
    buf: Seq<u8>,
    eof: bool,
)
    ensures
        first_decisive(array@, buf, eof, Any(array).spec_check(buf, eof)),
        first_decisive(array_ref@, buf, eof, Any(array_ref).spec_check(buf, eof)),
        first_decisive(slice@, buf, eof, Any(slice).spec_check(buf, eof)),
        first_decisive(vec@, buf, eof, Any(vec).spec_check(buf, eof)),
{
    lemma_any_check_decisive(array@, buf, eof);
    lemma_any_check_decisive(array_ref@, buf, eof);
    lemma_any_check_decisive(slice@, buf, eof);
    lemma_any_check_decisive(vec@, buf, eof);
}

fn check_any<T: Needle>(needles: &[T], buf: &[u8], eof: bool) -> (r: Result<Vec<Match>, Error>)
    ensures
        match r {
            Ok(v) => any_check(needles@, buf@, eof) == Ok::<Seq<Match>, Error>(v@) && spans_within(
                v@,
                buf@.len(),
            ),
            Err(e) => any_check(needles@, buf@, eof) == Err::<Seq<Match>, Error>(e),
        },
{
    let mut i: usize = 0;
    assert(needles@.skip(0) =~= needles@);
    while i < needles.len()
        invariant
            i <= needles@.len(),
            any_check(needles@, buf@, eof) == any_check(needles@.skip(i as int), buf@, eof),
        decreases needles@.len() - i,
    {
        let ghost rest = needles@.skip(i as int);
        assert(rest[0] == needles@[i as int]);
        assert(rest.drop_first() =~= needles@.skip(i + 1));
        let found = needles[i].check(buf, eof);
        match found {
            Err(e) => {
                return Err(e);
            },
            Ok(v) => {
                if v.len() > 0 {
                    return Ok(v);
                }
            },
        }
        i = i + 1;
    }
    assert(needles@.skip(i as int) =~= Seq::<T>::empty());
    Ok(Vec::new())
}

impl<'a, T: Needle> Needle for Any<&'a [T]> {
    open spec fn spec_check(&self, buf: Seq<u8>, eof: bool) -> Result<Seq<Match>, Error> {
        any_check(self.0@, buf, eof)
    }

    fn check(&self, buf: &[u8], eof: bool) -> (r: Result<Vec<Match>, Error>) {
        check_any(self.0, buf, eof)
    }
}

impl<T: Needle> Needle for Any<Vec<T>> {
    open spec fn spec_check(&self, buf: Seq<u8>, eof: bool) -> Result<Seq<Match>, Error> {
        any_check(self.0@, buf, eof)
    }

    fn check(&self, buf: &[u8], eof: bool) -> (r: Result<Vec<Match>, Error>) {
        check_any(self.0.as_slice(), buf, eof)
    }
}

impl<T: Needle, const N: usize> Needle for Any<[T; N]> {
    open spec fn spec_check(&self, buf: Seq<u8>, eof: bool) -> Result<Seq<Match>, Error> {
        any_check(self.0@, buf, eof)
    }

    fn check(&self, buf: &[u8], eof: bool) -> (r: Result<Vec<Match>, Error>) {
        check_any(vstd::array::array_as_slice(&self.0), buf, eof)
    }
}

impl<'a, T: Needle, const N: usize> Needle for Any<&'a [T; N]> {
    open spec fn spec_check(&self, buf: Seq<u8>, eof: bool) -> Result<Seq<Match>, Error> {
        any_check(self.0@, buf, eof)
    }

    fn check(&self, buf: &[u8], eof: bool) -> (r: Result<Vec<Match>, Error>) {
        check_any(vstd::array::array_as_slice(self.0), buf, eof)
    }
}

// ---------------------------------------------------------------------------
// Regex.
/// The matches of one capture: the groups that took part in it, in order.
pub open spec fn capture_matches(groups: Seq<Option<(usize, usize)>>) -> Seq<Match>
    decreases groups.len(),
{
    if groups.len() == 0 {
        Seq::empty()
    } else {
        capture_matches(groups.drop_last()) + match groups.last() {
            Some(m) => seq![span(m.0, m.1)],
            None => Seq::empty(),
        }
    }
}

/// The matches of all captures, one capture after the other.
pub open spec fn all_capture_matches(caps: Seq<Seq<Option<(usize, usize)>>>) -> Seq<Match>
    decreases caps.len(),
{
    if caps.len() == 0 {
        Seq::empty()
    } else {
        all_capture_matches(caps.drop_last()) + capture_matches(caps.last())
    }
}

/// What a regex needle finds: every group of every match of the regex, or
/// [`Error::RegexParsing`] where the pattern is not a regex.
pub open spec fn regex_check(pattern: Seq<char>, buf: Seq<u8>) -> Result<Seq<Match>, Error> {
    if regex_compiles(pattern) {
        Ok(all_capture_matches(regex_capture_groups(pattern, buf)))
    } else {
        Err(Error::RegexParsing)
    }
}

/// The matches of the groups of a capture lie in a buffer of length `len` when
/// the groups do.
pub proof fn lemma_capture_matches_within(groups: Seq<Option<(usize, usize)>>, len: nat)
    requires
        forall|j: int| 0 <= j < groups.len() ==> (#[trigger] groups[j] matches Some(m) ==> m.0 <= m.1 <= len),
    ensures
        spans_within(capture_matches(groups), len),
    decreases groups.len(),
{
    broadcast use lemma_span;

    if groups.len() > 0 {
        let init = groups.drop_last();
        assert forall|j: int| 0 <= j < init.len() implies (#[trigger] init[j] matches Some(m) ==> m.0
            <= m.1 <= len) by {
            assert(init[j] == groups[j]);
        }
        lemma_capture_matches_within(init, len);
        let last = groups.last();
        assert(groups[groups.len() - 1] == last);
        if let Some(m) = last {
            lemma_span(m.0, m.1);
        }
    }
}

/// The matches of all captures lie in a buffer of length `len` when all their
/// groups do.
pub proof fn lemma_all_capture_matches_within(caps: Seq<Seq<Option<(usize, usize)>>>, len: nat)
    requires
        forall|i: int, j: int|
            0 <= i < caps.len() && 0 <= j < caps[i].len() ==> (#[trigger] caps[i][j] matches Some(m)
                ==> m.0 <= m.1 <= len),
    ensures
        spans_within(all_capture_matches(caps), len),
    decreases caps.len(),
{
    if caps.len() > 0 {
        let init = caps.drop_last();
        assert forall|i: int, j: int|
            0 <= i < init.len() && 0 <= j < init[i].len() implies (#[trigger] init[i][j] matches Some(m)
                ==> m.0 <= m.1 <= len) by {
            assert(init[i] == caps[i]);
        }
        lemma_all_capture_matches_within(init, len);
        let last = caps.last();
        assert forall|j: int| 0 <= j < last.len() implies (#[trigger] last[j] matches Some(m) ==> m.0
            <= m.1 <= len) by {
            assert(last == caps[caps.len() - 1]);
        }
        lemma_capture_matches_within(last, len);
    }
}

/// Lists the groups that took part in the captures of a regex, one capture after
/// the other, each as a match of its offsets.
pub fn flatten_captures(caps: &Vec<Vec<Option<(usize, usize)>>>) -> (r: Vec<Match>)
    ensures
        r@ == all_capture_matches(caps.deep_view()),
{
    let mut r: Vec<Match> = Vec::new();
    let mut i: usize = 0;
    while i < caps.len()
        invariant
            i <= caps@.len(),
            r@ == all_capture_matches(caps.deep_view().take(i as int)),
        decreases caps@.len() - i,
    {
        let groups = &caps[i];
        let ghost before = r@;
        let mut j: usize = 0;
        assert(caps.deep_view()[i as int] =~= groups.deep_view());
        assert(groups.deep_view().take(0) =~= Seq::<Option<(usize, usize)>>::empty());
        assert(before + capture_matches(groups.deep_view().take(0)) =~= before);
        while j < groups.len()
            invariant
                j <= groups@.len(),
                groups == caps@[i as int],
                i < caps@.len(),
                r@ == before + capture_matches(groups.deep_view().take(j as int)),
            decreases groups@.len() - j,
        {
            assert(groups.deep_view().take(j + 1).drop_last() =~= groups.deep_view().take(j as int));
            assert(groups.deep_view()[j as int] == groups@[j as int]);
            match groups[j] {
                Some(m) => {
                    r.push(Match::new(m.0, m.1));
                    assert(r@ =~= before + capture_matches(groups.deep_view().take(j + 1)));
                },
                None => {
                    assert(r@ =~= before + capture_matches(groups.deep_view().take(j + 1)));
                },
            }
            j = j + 1;
        }
        assert(groups.deep_view().take(j as int) =~= groups.deep_view());
        assert(caps.deep_view().take(i + 1).drop_last() =~= caps.deep_view().take(i as int));
        assert(r@ =~= all_capture_matches(caps.deep_view().take(i + 1)));
        i = i + 1;
    }
    assert(caps.deep_view().take(i as int) =~= caps.deep_view());
    r
}

fn check_regex(pattern: &str, buf: &[u8]) -> (r: Result<Vec<Match>, Error>)
    ensures
        match r {
            Ok(v) => regex_check(pattern@, buf@) == Ok::<Seq<Match>, Error>(v@) && spans_within(
                v@,
                buf@.len(),
            ),
            Err(e) => regex_check(pattern@, buf@) == Err::<Seq<Match>, Error>(e),
        },
{
    match compile_regex(pattern) {
        Err(_) => Err(Error::RegexParsing),
        Ok(re) => {
            let caps = regex_groups(&re, buf);
            proof {
                assert forall|i: int, j: int|
                    0 <= i < caps.deep_view().len() && 0 <= j < caps.deep_view()[i].len() implies (
                    #[trigger] caps.deep_view()[i][j] matches Some(m) ==> m.0 <= m.1 <= buf@.len()) by {
                    assert(caps.deep_view()[i] == caps@[i]@);
                    assert(caps@[i]@[j] matches Some(m) ==> m.0 <= m.1 <= buf@.len());
                }
                lemma_all_capture_matches_within(caps.deep_view(), buf@.len());
            }
            Ok(flatten_captures(&caps))
        },
    }
}

/// Regex tries to look up a match by a regex.
///
/// It gives every group of every match, the whole match first.
pub struct Regex<Re>(pub Re);

impl<'a> Needle for Regex<&'a str> {
    open spec fn spec_check(&self, buf: Seq<u8>, eof: bool) -> Result<Seq<Match>, Error> {
        regex_check(self.0@, buf)
    }

    fn check(&self, buf: &[u8], eof: bool) -> (r: Result<Vec<Match>, Error>) {
        check_regex(self.0, buf)
    }
}

impl Needle for Regex<String> {
    open spec fn spec_check(&self, buf: Seq<u8>, eof: bool) -> Result<Seq<Match>, Error> {
        regex_check(self.0@, buf)
    }

    fn check(&self, buf: &[u8], eof: bool) -> (r: Result<Vec<Match>, Error>) {
        check_regex(self.0.as_str(), buf)
    }
}

} // verus!
