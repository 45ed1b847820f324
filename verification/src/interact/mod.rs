//! Routines for running an interacting session with a process.
//!
//! The loop that moves bytes between the user and the process lives with the
//! IO; the decisions it takes on the bytes are here.

use vstd::prelude::*;

use vstd::utf8::encode_utf8;

use crate::bytes::{copy_bytes, take_front};
use crate::captures::{right_most, Captures};
use crate::error::Error;
use crate::interact::actions::lookup::check;
use crate::needle::{finds_nothing, lemma_search_from_leftmost, occurs_at, search_from, Needle};

pub mod actions;

verus! {

broadcast use vstd::seq::group_seq_axioms;

/// The answer of a search of a pattern in a buffer of user input.
#[derive(Debug, Clone, PartialEq, Eq, Structural)]
pub enum Match {
    /// The pattern was found; the buffer up to this index holds its first occurrence.
    Yes(usize),
    /// The pattern is not in the buffer.
    No,
    /// The buffer is a beginning of the pattern, which more input may complete.
    MaybeLater,
}

/// What the search of `find` in `haystack` answers.
///
/// A haystack no shorter than the pattern gives the end of the first occurrence
/// of the pattern, or [Match::No]. A shorter one gives [Match::MaybeLater] when
/// it is a beginning of the pattern, and [Match::No] otherwise.
pub open spec fn contains_spec(haystack: Seq<u8>, find: Seq<u8>) -> Match {
    if haystack.len() >= find.len() {
        match search_from(find, haystack, 0) {
            Some(i) => Match::Yes((i + find.len()) as usize),
            None => Match::No,
        }
    } else if haystack == find.take(haystack.len() as int) {
        Match::MaybeLater
    } else {
        Match::No
    }
}

/// Compares `len` bytes of `haystack` from `i` with the first `len` bytes of `find`.
fn equal_prefix_at(haystack: &[u8], i: usize, find: &[u8], len: usize) -> (r: bool)
    requires
        i + len <= haystack@.len(),
        len <= find@.len(),
    ensures
        r == (haystack@.subrange(i as int, i + len) == find@.take(len as int)),
{
    let hlen = haystack.len();
    let mut k: usize = 0;
    while k < len
        invariant
            hlen == haystack@.len(),
            k <= len,
            i + len <= haystack@.len(),
            len <= find@.len(),
            forall|j: int| 0 <= j < k ==> haystack@[i + j] == find@[j],
        decreases len - k,
    {
        if haystack[i + k] != find[k] {
            assert(haystack@.subrange(i as int, i + len)[k as int] != find@.take(len as int)[k as int]);
            return false;
        }
        k = k + 1;
    }
    assert(haystack@.subrange(i as int, i + len) =~= find@.take(len as int));
    true
}

/// Searches `find` in `haystack`, telling apart a beginning of `find` that more
/// input may complete.
pub fn contains_in_bytes(haystack: &[u8], find: &[u8]) -> (r: Match)
    requires
        find@.len() > 0,
        haystack@.len() > 0,
    ensures
        r == contains_spec(haystack@, find@),
{
    let hlen = haystack.len();
    let len = if hlen < find.len() {
        hlen
    } else {
        find.len()
    };
    let mut i: usize = 0;
    while hlen - i >= len
        invariant
            hlen == haystack@.len(),
            i <= hlen,
            len == if hlen < find@.len() {
                hlen
            } else {
                find@.len() as usize
            },
            len > 0,
            hlen >= find@.len() ==> search_from(find@, haystack@, 0) == search_from(
                find@,
                haystack@,
                i as int,
            ),
            hlen < find@.len() ==> i <= 1,
            hlen < find@.len() && i == 1 ==> haystack@ != find@.take(hlen as int),
        decreases hlen - i,
    {
        if equal_prefix_at(haystack, i, find, len) {
            if len == find.len() {
                proof {
                    assert(find@.take(len as int) =~= find@);
                }
                return Match::Yes(i + len);
            } else {
                proof {
                    assert(haystack@.subrange(0, hlen as int) =~= haystack@);
                }
                return Match::MaybeLater;
            }
        }
        proof {
            if hlen < find@.len() {
                assert(haystack@.subrange(0, hlen as int) =~= haystack@);
            } else {
                assert(find@.take(len as int) =~= find@);
                assert(!occurs_at(find@, haystack@, i as int));
            }
        }
        i = i + 1;
    }
    proof {
        if hlen >= find@.len() {
            assert(search_from(find@, haystack@, i as int) is None);
        }
    }
    Match::No
}

/// A [Match::Yes] answer ends at the first occurrence of the pattern: the pattern
/// occurs just before the index and at no earlier place.
pub proof fn lemma_contains_first_occurrence(haystack: Seq<u8>, find: Seq<u8>)
    requires
        haystack.len() <= usize::MAX,
    ensures
        contains_spec(haystack, find) matches Match::Yes(n) ==> {
            &&& find.len() <= n <= haystack.len()
            &&& haystack.subrange(n - find.len(), n as int) == find
            &&& forall|k: int| 0 <= k < n - find.len() ==> !occurs_at(find, haystack, k)
        },
{
    lemma_search_from_leftmost(find, haystack, 0);
}

/// The position of the first escape character in `buf`, if there is one.
///
/// The bytes before it are the ones to pass on before the interaction stops.
pub fn escape_position(buf: &[u8], escape: u8) -> (r: Option<usize>)
    ensures
        match r {
            Some(p) => p < buf@.len() && buf@[p as int] == escape && forall|k: int|
                0 <= k < p ==> buf@[k] != escape,
            None => forall|k: int| 0 <= k < buf@.len() ==> buf@[k] != escape,
        },
{
    let mut i: usize = 0;
    while i < buf.len()
        invariant
            i <= buf@.len(),
            forall|k: int| 0 <= k < i ==> buf@[k] != escape,
        decreases buf@.len() - i,
    {
        if buf[i] == escape {
            return Some(i);
        }
        i = i + 1;
    }
    None
}


/// What the interaction loop hands to [interact_step] after one round of IO.
#[derive(Debug)]
pub enum InteractEvent {
    /// Bytes read from the user, passed through the input filter, with whether
    /// the read hit the end of the input and whether the input action asked to stop.
    Input { bytes: Vec<u8>, eof: bool, exit: bool },
    /// Bytes read from the process, passed through the output filter, with whether
    /// the read hit the end of the output and whether the output action asked to stop.
    Output { bytes: Vec<u8>, eof: bool, exit: bool },
    /// Nothing was read; whether the idle action asked to stop.
    Idle { exit: bool },
    /// What asking whether the process is alive gave: the answer, or `None`
    /// when the question failed (such a failure is not a reason to stop).
    Status { alive: Option<bool> },
}

/// What the interaction loop does next.
#[derive(Debug)]
pub enum InteractAction {
    /// Write the bytes to the process, then go on.
    SendToProcess(Vec<u8>),
    /// Write the bytes to the user's output and flush it, then go on.
    ShowToUser(Vec<u8>),
    /// Write the bytes to the process, then stop: the user typed the escape character.
    SendAndStop(Vec<u8>),
    /// Go on.
    Continue,
    /// Stop.
    Stop,
    /// Stop: the process has exited.
    Exited,
}

/// The decision of the interaction loop on one event.
///
/// The exit of the process stops the loop. An end of a stream, or an action that
/// asks for it, stops it too. What the
/// process printed is shown to the user. What the user typed goes to the process,
/// up to the first escape character, if there is one, which stops the loop.
pub fn interact_step(event: InteractEvent, escape: u8) -> (r: InteractAction)
    ensures
        match event {
            InteractEvent::Input { bytes, eof, exit } => if eof || exit {
                r is Stop
            } else if bytes@.contains(escape) {
                &&& r matches InteractAction::SendAndStop(sent)
                &&& sent@.len() < bytes@.len()
                &&& sent@ == bytes@.take(sent@.len() as int)
                &&& bytes@[sent@.len() as int] == escape
                &&& !sent@.contains(escape)
            } else {
                r matches InteractAction::SendToProcess(sent) && sent@ == bytes@
            },
            InteractEvent::Output { bytes, eof, exit } => if eof || exit {
                r is Stop
            } else {
                r matches InteractAction::ShowToUser(shown) && shown@ == bytes@
            },
            InteractEvent::Idle { exit } => if exit {
                r is Stop
            } else {
                r is Continue
            },
            InteractEvent::Status { alive } => if alive == Some(false) {
                r is Exited
            } else {
                r is Continue
            },
        },
{
    match event {
        InteractEvent::Input { bytes, eof, exit } => {
            if eof || exit {
                return InteractAction::Stop;
            }
            match escape_position(bytes.as_slice(), escape) {
                Some(p) => {
                    let mut sent = bytes;
                    sent.truncate(p);
                    proof {
                        assert(sent@ =~= bytes@.take(p as int));
                        assert(!sent@.contains(escape));
                    }
                    InteractAction::SendAndStop(sent)
                },
                None => {
                    proof {
                        assert(!bytes@.contains(escape));
                    }
                    InteractAction::SendToProcess(bytes)
                },
            }
        },
        InteractEvent::Output { bytes, eof, exit } => {
            if eof || exit {
                InteractAction::Stop
            } else {
                InteractAction::ShowToUser(bytes)
            }
        },
        InteractEvent::Idle { exit } => {
            if exit {
                InteractAction::Stop
            } else {
                InteractAction::Continue
            }
        },
        InteractEvent::Status { alive } => {
            match alive {
                Some(false) => InteractAction::Exited,
                _ => InteractAction::Continue,
            }
        },
    }
}


/// Which output handler fires on `buf`: the first one, from `from` on, whose
/// needle finds something, with what it found; an error of a needle met before
/// it; or none.
pub open spec fn first_found<N: Needle>(needles: Seq<N>, buf: Seq<u8>, eof: bool, from: int) -> Result<
    Option<(int, Seq<crate::needle::Match>)>,
    Error,
>
    decreases needles.len() - from,
{
    if from < 0 || from >= needles.len() {
        Ok(None)
    } else {
        match needles[from].spec_check(buf, eof) {
            Err(e) => Err(e),
            Ok(v) => if v.len() > 0 {
                Ok(Some((from, v)))
            } else {
                first_found(needles, buf, eof, from + 1)
            },
        }
    }
}

/// One round of the output handlers: their needles run, in order, on the output
/// kept in `buf`.
///
/// The first one that finds something fires: its index is returned with the
/// captures, and the bytes up to the end of its right most match are taken out of
/// `buf`.
pub fn check_output_round<N: Needle>(needles: &[N], buf: &mut Vec<u8>, eof: bool) -> (r: Result<
    Option<(usize, Captures)>,
    Error,
>)
    ensures
        match first_found(needles@, old(buf)@, eof, 0) {
            Err(e) => r == Err::<Option<(usize, Captures)>, Error>(e) && final(buf)@ == old(buf)@,
            Ok(None) => r matches Ok(None) && final(buf)@ == old(buf)@,
            Ok(Some((i, v))) => {
                &&& r matches Ok(Some((j, c)))
                &&& j == i
                &&& c.spec_matches() == v
                &&& v.len() > 0
                &&& right_most(v) <= old(buf)@.len()
                &&& c.spec_buf() == old(buf)@.take(right_most(v) as int)
                &&& final(buf)@ == old(buf)@.skip(right_most(v) as int)
                &&& old(buf)@ == c.spec_buf() + final(buf)@
            },
        },
{
    let mut i: usize = 0;
    while i < needles.len()
        invariant
            i <= needles@.len(),
            first_found(needles@, old(buf)@, eof, 0) == first_found(needles@, buf@, eof, i as int),
            buf@ == old(buf)@,
        decreases needles@.len() - i,
    {
        match check(buf, &needles[i], eof) {
            Err(e) => {
                return Err(e);
            },
            Ok(Some(c)) => {
                return Ok(Some((i, c)));
            },
            Ok(None) => {},
        }
        i = i + 1;
    }
    Ok(None)
}

/// The rounds of the output handlers on `buf`, repeated until none fires: for
/// each round, the handler that fired, its matches and the bytes it took; then
/// an error of a needle, if one ended the rounds; then the bytes left.
///
/// A round that takes no bytes is the last one: the next would fire the same way.
/// (A needle's matches end inside the buffer; were one to end beyond it, the
/// round would take all the bytes.)
pub open spec fn output_rounds<N: Needle>(needles: Seq<N>, buf: Seq<u8>, eof: bool) -> (
    Seq<(int, Seq<crate::needle::Match>, Seq<u8>)>,
    Result<(), Error>,
    Seq<u8>,
)
    decreases buf.len(),
{
    match first_found(needles, buf, eof, 0) {
        Err(e) => (Seq::empty(), Err(e), buf),
        Ok(None) => (Seq::empty(), Ok(()), buf),
        Ok(Some((i, v))) => {
            let n = if right_most(v) <= buf.len() {
                right_most(v) as int
            } else {
                buf.len() as int
            };
            let round = (i, v, buf.take(n));
            if n > 0 {
                let next = output_rounds(needles, buf.skip(n), eof);
                (seq![round] + next.0, next.1, next.2)
            } else {
                (seq![round], Ok(()), buf)
            }
        },
    }
}

/// No output handler fires exactly when each needle runs without an error and
/// finds nothing.
pub proof fn lemma_first_found_none<N: Needle>(needles: Seq<N>, buf: Seq<u8>, eof: bool, from: int)
    requires
        0 <= from,
    ensures
        first_found(needles, buf, eof, from) == Ok::<Option<(int, Seq<crate::needle::Match>)>, Error>(
            None,
        ) <==> forall|k: int|
            from <= k < needles.len() ==> finds_nothing(#[trigger] needles[k].spec_check(buf, eof)),
    decreases needles.len() - from,
{
    if from < needles.len() {
        lemma_first_found_none(needles, buf, eof, from + 1);
    }
}

/// The bytes of the rounds of the output handlers, one after the other, and then
/// the bytes left, are the bytes there were.
pub proof fn lemma_output_rounds_split<N: Needle>(needles: Seq<N>, buf: Seq<u8>, eof: bool)
    ensures
        output_rounds(needles, buf, eof).0.map_values(
            |f: (int, Seq<crate::needle::Match>, Seq<u8>)| f.2,
        ).flatten() + output_rounds(needles, buf, eof).2 == buf,
    decreases buf.len(),
{
    let rounds = output_rounds(needles, buf, eof);
    let bytes = rounds.0.map_values(|f: (int, Seq<crate::needle::Match>, Seq<u8>)| f.2);
    match first_found(needles, buf, eof, 0) {
        Err(_) => {
            assert(bytes =~= Seq::<Seq<u8>>::empty());
            assert(bytes.flatten() + rounds.2 =~= buf);
        },
        Ok(None) => {
            assert(bytes =~= Seq::<Seq<u8>>::empty());
            assert(bytes.flatten() + rounds.2 =~= buf);
        },
        Ok(Some((i, v))) => {
            let n = if right_most(v) <= buf.len() {
                right_most(v) as int
            } else {
                buf.len() as int
            };
            if n > 0 {
                let next = output_rounds(needles, buf.skip(n), eof);
                lemma_output_rounds_split(needles, buf.skip(n), eof);
                let next_bytes = next.0.map_values(|f: (int, Seq<crate::needle::Match>, Seq<u8>)| f.2);
                assert(bytes =~= seq![buf.take(n)] + next_bytes);
                assert(bytes.flatten() == buf.take(n) + next_bytes.flatten()) by {
                    assert(bytes.drop_first() =~= next_bytes);
                };
                assert(rounds.2 == next.2);
                assert(next_bytes.flatten() + next.2 == buf.skip(n));
                assert(bytes.flatten() + rounds.2 =~= buf.take(n) + (next_bytes.flatten() + next.2));
                assert(buf.take(n) + buf.skip(n) =~= buf);
            } else {
                assert(bytes =~= seq![buf.take(0)]);
                assert(bytes.flatten() == buf.take(0) + Seq::<Seq<u8>>::empty().flatten()) by {
                    assert(bytes.drop_first() =~= Seq::<Seq<u8>>::empty());
                };
                assert(bytes.flatten() + rounds.2 =~= buf);
            }
        },
    }
}

/// When the rounds of the output handlers end without an error and after a round
/// that took bytes (or with no round at all), no handler fires on the bytes left:
/// every needle runs on them without an error and finds nothing.
pub proof fn lemma_output_rounds_done<N: Needle>(needles: Seq<N>, buf: Seq<u8>, eof: bool)
    requires
        output_rounds(needles, buf, eof).1 is Ok,
        output_rounds(needles, buf, eof).0.len() == 0 || output_rounds(needles, buf, eof).0.last().2.len()
            > 0,
    ensures
        forall|k: int|
            0 <= k < needles.len() ==> finds_nothing(
                #[trigger] needles[k].spec_check(output_rounds(needles, buf, eof).2, eof),
            ),
    decreases buf.len(),
{
    let rounds = output_rounds(needles, buf, eof);
    match first_found(needles, buf, eof, 0) {
        Err(_) => {},
        Ok(None) => {
            lemma_first_found_none(needles, buf, eof, 0);
        },
        Ok(Some((i, v))) => {
            let n = if right_most(v) <= buf.len() {
                right_most(v) as int
            } else {
                buf.len() as int
            };
            if n > 0 {
                let next = output_rounds(needles, buf.skip(n), eof);
                if next.0.len() > 0 {
                    assert(rounds.0.last() == next.0.last());
                }
                lemma_output_rounds_done(needles, buf.skip(n), eof);
            } else {
                assert(rounds.0.last().2 =~= buf.take(0));
            }
        },
    }
}

/// The rounds that fired, as the handler, the matches and the bytes of each.
pub open spec fn fired_rounds(fired: Seq<(usize, Captures)>) -> Seq<(int, Seq<crate::needle::Match>, Seq<u8>)> {
    fired.map_values(|f: (usize, Captures)| (f.0 as int, f.1.spec_matches(), f.1.spec_buf()))
}

/// Runs the output handlers on the output kept in `buf`, round after round, until
/// none fires (see [output_rounds]).
///
/// The handlers that fired are returned in order with their captures, for the
/// caller to run; an error of a needle ends the rounds and is returned beside
/// them. The bytes of the captures, one after the other, and then the bytes left
/// in `buf` are the bytes that were in `buf`.
pub fn check_output<N: Needle>(needles: &[N], buf: &mut Vec<u8>, eof: bool) -> (r: (
    Vec<(usize, Captures)>,
    Result<(), Error>,
))
    ensures
        fired_rounds(r.0@) == output_rounds(needles@, old(buf)@, eof).0,
        r.1 == output_rounds(needles@, old(buf)@, eof).1,
        final(buf)@ == output_rounds(needles@, old(buf)@, eof).2,
{
    let ghost start = buf@;
    let mut fired: Vec<(usize, Captures)> = Vec::new();
    loop
        invariant
            fired_rounds(fired@) + output_rounds(needles@, buf@, eof).0 == output_rounds(
                needles@,
                start,
                eof,
            ).0,
            output_rounds(needles@, buf@, eof).1 == output_rounds(needles@, start, eof).1,
            output_rounds(needles@, buf@, eof).2 == output_rounds(needles@, start, eof).2,
            start == old(buf)@,
        decreases buf@.len(),
    {
        let ghost before = buf@;
        let ghost prev = fired@;
        match check_output_round(needles, buf, eof) {
            Err(e) => {
                assert(fired_rounds(fired@) + Seq::empty() =~= fired_rounds(fired@));
                return (fired, Err(e));
            },
            Ok(None) => {
                assert(fired_rounds(fired@) + Seq::empty() =~= fired_rounds(fired@));
                return (fired, Ok(()));
            },
            Ok(Some((i, c))) => {
                let taken = c.as_bytes().len();
                let ghost round = (i as int, c.spec_matches(), c.spec_buf());
                fired.push((i, c));
                proof {
                    assert(fired_rounds(fired@) =~= fired_rounds(prev).push(round));
                    let next = output_rounds(needles@, buf@, eof);
                    if taken > 0 {
                        assert(fired_rounds(fired@) + next.0 =~= fired_rounds(prev) + (seq![round]
                            + next.0));
                    } else {
                        assert(fired_rounds(fired@) =~= fired_rounds(prev) + seq![round]);
                    }
                }
                if taken == 0 {
                    return (fired, Ok(()));
                }
            },
        }
    }
}

/// What the input handlers make of the user's input kept in `buf`: the first
/// pattern, from `from` on, that is not empty and that the input contains or may
/// still grow into, with that answer; none when the input is empty or no
/// pattern is such.
pub open spec fn first_input_match(patterns: Seq<String>, buf: Seq<u8>, from: int) -> Option<
    (int, Match),
>
    decreases patterns.len() - from,
{
    if from < 0 || from >= patterns.len() {
        None
    } else {
        let p = encode_utf8(patterns[from]@);
        if p.len() > 0 && buf.len() > 0 && contains_spec(buf, p) != Match::No {
            Some((from, contains_spec(buf, p)))
        } else {
            first_input_match(patterns, buf, from + 1)
        }
    }
}

/// The answer of [check_input_round] on the user's input.
#[derive(Debug)]
pub enum InputCheck {
    /// The pattern of this handler was found: the input up to the end of it was
    /// taken out of the buffer, and the caller runs the handler.
    Handler(usize),
    /// No pattern is in the input: all of it was taken out of the buffer, to be sent.
    Send(Vec<u8>),
    /// The input may still grow into a pattern: it stays in the buffer.
    Hold,
}

/// One round of the input handlers: their patterns run, in order, on the input
/// kept in `buf`.
pub fn check_input_round(patterns: &[String], buf: &mut Vec<u8>) -> (r: InputCheck)
    ensures
        match first_input_match(patterns@, old(buf)@, 0) {
            Some((i, Match::Yes(n))) => {
                &&& r matches InputCheck::Handler(j)
                &&& j == i
                &&& 1 <= n <= old(buf)@.len()
                &&& final(buf)@ == old(buf)@.skip(n as int)
            },
            Some((_, _)) => r is Hold && final(buf)@ == old(buf)@,
            None => r matches InputCheck::Send(sent) && sent@ == old(buf)@ && final(buf)@.len() == 0,
        },
{
    let mut i: usize = 0;
    while i < patterns.len()
        invariant
            i <= patterns@.len(),
            buf@ == old(buf)@,
            first_input_match(patterns@, buf@, 0) == first_input_match(patterns@, buf@, i as int),
        decreases patterns@.len() - i,
    {
        let pattern = patterns[i].as_str().as_bytes();
        assert(pattern@ == encode_utf8(patterns@[i as int]@));
        if pattern.len() > 0 && buf.len() > 0 {
            match contains_in_bytes(buf.as_slice(), pattern) {
                Match::No => {},
                Match::MaybeLater => {
                    return InputCheck::Hold;
                },
                Match::Yes(n) => {
                    proof {
                        lemma_contains_first_occurrence(buf@, pattern@);
                    }
                    let _ = take_front(buf, n);
                    return InputCheck::Handler(i);
                },
            }
        }
        i = i + 1;
    }
    let sent = copy_bytes(buf.as_slice());
    buf.clear();
    InputCheck::Send(sent)
}


/// The rounds of the input handlers on `buf`: round after round, the handler
/// whose pattern was found fires and the input up to the end of it is taken out,
/// until the input is used up, may still grow into a pattern, or holds none; in
/// the last case all of it is to be sent. Gives the handlers that fired, the
/// bytes to send, and the bytes left.
pub open spec fn input_rounds(patterns: Seq<String>, buf: Seq<u8>) -> (Seq<int>, Seq<u8>, Seq<u8>)
    decreases buf.len(),
{
    match first_input_match(patterns, buf, 0) {
        Some((i, Match::Yes(n))) => if 0 < n < buf.len() {
            let next = input_rounds(patterns, buf.skip(n as int));
            (seq![i] + next.0, next.1, next.2)
        } else {
            (seq![i], Seq::empty(), buf.skip(n as int))
        },
        Some(_) => (Seq::empty(), Seq::empty(), buf),
        None => (Seq::empty(), buf, Seq::empty()),
    }
}

/// Runs the input handlers on the user's input kept in `buf`, round after round
/// (see [input_rounds]).
///
/// The handlers that fired are returned in order, for the caller to run, with the
/// bytes to send to the process.
pub fn check_input(patterns: &[String], buf: &mut Vec<u8>) -> (r: (Vec<usize>, Vec<u8>))
    ensures
        r.0@.map_values(|h: usize| h as int) == input_rounds(patterns@, old(buf)@).0,
        r.1@ == input_rounds(patterns@, old(buf)@).1,
        final(buf)@ == input_rounds(patterns@, old(buf)@).2,
{
    let ghost start = buf@;
    let mut fired: Vec<usize> = Vec::new();
    loop
        invariant
            fired@.map_values(|h: usize| h as int) + input_rounds(patterns@, buf@).0
                == input_rounds(patterns@, start).0,
            input_rounds(patterns@, buf@).1 == input_rounds(patterns@, start).1,
            input_rounds(patterns@, buf@).2 == input_rounds(patterns@, start).2,
            start == old(buf)@,
        decreases buf@.len(),
    {
        let ghost prev = fired@;
        match check_input_round(patterns, buf) {
            InputCheck::Handler(i) => {
                fired.push(i);
                proof {
                    assert(fired@.map_values(|h: usize| h as int) =~= prev.map_values(
                        |h: usize| h as int,
                    ).push(i as int));
                    let next = input_rounds(patterns@, buf@);
                    if buf@.len() > 0 {
                        assert(fired@.map_values(|h: usize| h as int) + next.0 =~= prev.map_values(
                            |h: usize| h as int,
                        ) + (seq![i as int] + next.0));
                    } else {
                        assert(fired@.map_values(|h: usize| h as int) =~= prev.map_values(
                            |h: usize| h as int,
                        ) + seq![i as int]);
                    }
                }
                if buf.len() == 0 {
                    return (fired, Vec::new());
                }
            },
            InputCheck::Send(sent) => {
                assert(fired@.map_values(|h: usize| h as int) + Seq::empty() =~= fired@.map_values(
                    |h: usize| h as int,
                ));
                return (fired, sent);
            },
            InputCheck::Hold => {
                assert(fired@.map_values(|h: usize| h as int) + Seq::empty() =~= fired@.map_values(
                    |h: usize| h as int,
                ));
                return (fired, Vec::new());
            },
        }
    }
}

} // verus!
