//! The regex engine of the crate: the calls into the `regex` crate.

use vstd::prelude::*;
use regex::bytes::Regex as BytesRegex;
use regex::Error as RegexError;
use regex::Regex as StrRegex;
use vstd::string::StringSliceAdditionalSpecFns;
use vstd::utf8::is_char_boundary;

verus! {

#[verifier::external_type_specification]
#[verifier::external_body]
pub struct ExBytesRegex(BytesRegex);

#[verifier::external_type_specification]
#[verifier::external_body]
pub struct ExRegexError(RegexError);

/// Whether `regex::bytes::Regex::new` accepts `pattern`.
pub uninterp spec fn regex_compiles(pattern: Seq<char>) -> bool;

/// The capture groups that `regex::bytes::Regex::captures_iter` reports for the regex
/// compiled from `pattern` on `haystack`: one entry per match of the whole regex, in
/// the order the iterator yields them, each listing the offsets of every group of the
/// regex, `None` where a group took no part in the match.
pub uninterp spec fn regex_capture_groups(pattern: Seq<char>, haystack: Seq<u8>) -> Seq<
    Seq<Option<(usize, usize)>>,
>;

/// A compiled regex together with the pattern it was compiled from.
pub struct CompiledRegex {
    re: regex::bytes::Regex,
    pattern: Ghost<Seq<char>>,
}

impl View for CompiledRegex {
    type V = Seq<char>;

    closed spec fn view(&self) -> Seq<char> {
        self.pattern@
    }
}

/// Compiles a pattern with `regex::bytes::Regex::new`.
///
/// Claims that compiling succeeds exactly when the pattern is one that the regex
/// crate accepts (a name, as the syntax takes pages), and that the compiled value
/// is tied to the pattern it was made from.
#[verifier::external_body]
pub(crate) fn compile_regex(pattern: &str) -> (r: Result<CompiledRegex, regex::Error>)
    ensures
        r is Ok <==> regex_compiles(pattern@),
        r matches Ok(c) ==> c@ == pattern@,
{
    match regex::bytes::Regex::new(pattern) {
        Ok(re) => Ok(CompiledRegex { re, pattern: Ghost(pattern@) }),
        Err(e) => Err(e),
    }
}

/// Runs `regex::bytes::Regex::captures_iter` on a haystack and lists, for each
/// capture it yields, the `(start, end)` offsets of each group (`Captures::iter`).
///
/// Claims that the result is the named function of the pattern and the haystack,
/// and, as the regex crate documents for `Match`, that every reported group has
/// `start <= end` and lies inside the haystack.
#[verifier::external_body]
pub(crate) fn regex_groups(re: &CompiledRegex, haystack: &[u8]) -> (r: Vec<Vec<Option<(usize, usize)>>>)
    ensures
        r.deep_view() == regex_capture_groups(re@, haystack@),
        forall|i: int, j: int|
            0 <= i < r@.len() && 0 <= j < r@[i]@.len() ==> (#[trigger] r@[i]@[j] matches Some(
                m,
            ) ==> m.0 <= m.1 <= haystack@.len()),
{
    re.re.captures_iter(haystack).map(
        |c: regex::bytes::Captures| c.iter().map(|g| g.map(|m| (m.start(), m.end()))).collect(),
    ).collect()
}

#[verifier::external_type_specification]
#[verifier::external_body]
pub struct ExStrRegex(StrRegex);

/// Whether `regex::Regex::new` accepts `pattern`.
pub uninterp spec fn str_regex_compiles(pattern: Seq<char>) -> bool;

/// The byte offsets `(start, end)` of the whole match of each capture that
/// `regex::Regex::captures_iter` yields for the regex compiled from `pattern` on
/// `text`, in order.
pub uninterp spec fn str_regex_match_spans(pattern: Seq<char>, text: Seq<char>) -> Seq<(usize, usize)>;

/// A compiled text regex together with the pattern it was compiled from.
pub struct CompiledStrRegex {
    re: regex::Regex,
    pattern: Ghost<Seq<char>>,
}

impl View for CompiledStrRegex {
    type V = Seq<char>;

    closed spec fn view(&self) -> Seq<char> {
        self.pattern@
    }
}

/// Compiles a pattern with `regex::Regex::new`.
///
/// Claims that compiling succeeds exactly when the pattern is one that the regex
/// crate accepts (named), and that the compiled value is tied to its pattern.
#[verifier::external_body]
pub(crate) fn compile_str_regex(pattern: &str) -> (r: Result<CompiledStrRegex, regex::Error>)
    ensures
        r is Ok <==> str_regex_compiles(pattern@),
        r matches Ok(c) ==> c@ == pattern@,
{
    match regex::Regex::new(pattern) {
        Ok(re) => Ok(CompiledStrRegex { re, pattern: Ghost(pattern@) }),
        Err(e) => Err(e),
    }
}

/// Runs `regex::Regex::captures_iter` on a text and lists the offsets of the whole
/// match of each capture (`Captures::get_match`).
///
/// Claims that the result is the named function of the pattern and the text, and,
/// as the regex crate documents for `regex::Match`, that every match has
/// `start <= end`, lies inside the text and starts and ends on character boundaries.
#[verifier::external_body]
pub(crate) fn str_regex_spans(re: &CompiledStrRegex, text: &str) -> (r: Vec<(usize, usize)>)
    ensures
        r@ == str_regex_match_spans(re@, text@),
        forall|i: int|
            0 <= i < r@.len() ==> {
                let m = #[trigger] r@[i];
                &&& m.0 <= m.1 <= text.spec_bytes().len()
                &&& is_char_boundary(text.spec_bytes(), m.0 as int)
                &&& is_char_boundary(text.spec_bytes(), m.1 as int)
            },
{
    re.re.captures_iter(text).map(|c: regex::Captures| (c.get_match().start(), c.get_match().end())).collect()
}

} // verus!
