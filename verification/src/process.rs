//! A platform independent abstraction over an os process, and the parsing of a
//! command line.

use vstd::prelude::*;
use vstd::string::StringSliceAdditionalSpecFns;
use vstd::utf8::*;

use crate::regex_engine::{compile_str_regex, str_regex_compiles, str_regex_match_spans, str_regex_spans};

verus! {

broadcast use vstd::seq::group_seq_axioms;

/// Healthcheck represents a check by which we can determine if a spawned process is still alive.
pub trait Healthcheck {
    /// A status healthcheck can return.
    type Status;

    /// The function returns a status of a process if it still alive and it can operate.
    fn get_status(&self) -> std::io::Result<Self::Status>;

    /// The function returns a status of a process if it still alive and it can operate.
    fn is_alive(&self) -> std::io::Result<bool>;
}

/// NonBlocking interface represents a reader which can be turned in a non blocking mode
/// so its read operations will return immediately.
pub trait NonBlocking {
    /// Sets a reader into a non/blocking mode.
    fn set_blocking(&mut self, on: bool) -> std::io::Result<()>;
}

/// Terminal configuration trait, used for IO configuration.
pub trait Termios {
    /// Verifies whether a write will be repeated in output stream and be read back.
    fn is_echo(&self) -> std::io::Result<bool>;

    /// Configure the echo logic.
    fn set_echo(&mut self, on: bool) -> std::io::Result<bool>;
}

/// A regex of one or more characters, none of them one of `excluded`.
pub open spec fn run_excluding(excluded: Seq<char>) -> Seq<char> {
    "[^"@ + excluded + "]+"@
}

/// A regex of a text in `q` quotes: the quote, one or more characters other than
/// that quote, and the quote again.
pub open spec fn quoted(q: char) -> Seq<char> {
    seq![q] + run_excluding(seq![q]) + seq![q]
}

/// The characters that end a bare word of a command line: the two quotes and the space.
pub open spec fn word_separators() -> Seq<char> {
    seq!['\'', '"', ' ']
}

/// The pattern of a word of a command line: a text in double quotes, a text in
/// single quotes, or a run of characters that are neither quotes nor spaces.
pub open spec fn word_pattern() -> Seq<char> {
    quoted('"') + "|"@ + quoted('\'') + "|"@ + run_excluding(word_separators())
}

/// A bare word stops only at a space or a quote: these, and no other character,
/// are excluded from its run; every other character, `/` among them, is part of
/// a word. The pattern is, in this order, a double-quoted text, a single-quoted
/// text, or such a run.
pub proof fn lemma_word_pattern()
    ensures
        forall|c: char| word_separators().contains(c) <==> (c == ' ' || c == '"' || c == '\''),
        word_pattern() == quoted('"') + "|"@ + quoted('\'') + "|"@ + run_excluding(
            seq!['\'', '"', ' '],
        ),
{
    assert forall|c: char| word_separators().contains(c) <==> (c == ' ' || c == '"' || c == '\'') by {
        if c == ' ' {
            assert(word_separators()[2] == c);
        } else if c == '"' {
            assert(word_separators()[1] == c);
        } else if c == '\'' {
            assert(word_separators()[0] == c);
        }
    }
}

/// The words of a command line: the texts of the matches of [`word_pattern`],
/// in order, each given as the bytes of the command line that it spans.
pub open spec fn tokens_spec(program: &str) -> Seq<Seq<u8>> {
    str_regex_match_spans(word_pattern(), program@).map_values(
        |m: (usize, usize)| program.spec_bytes().subrange(m.0 as int, m.1 as int),
    )
}

/// A character boundary of a text is one of the part of the text before a later boundary.
proof fn lemma_boundary_of_prefix(bytes: Seq<u8>, s: int, e: int)
    requires
        valid_utf8(bytes),
        0 <= s <= e <= bytes.len(),
        is_char_boundary(bytes, s),
        is_char_boundary(bytes, e),
    ensures
        valid_utf8(bytes.subrange(0, e)),
        is_char_boundary(bytes.subrange(0, e), s),
{
    valid_utf8_split(bytes, e);
    let head = bytes.subrange(0, e);
    if s < e {
        is_char_boundary_iff_not_is_continuation_byte(head, s);
        is_char_boundary_iff_not_is_continuation_byte(bytes, s);
        assert(head[s] == bytes[s]);
    } else {
        is_char_boundary_start_end_of_seq(head);
        assert(head.len() == s);
    }
}

/// The words of a text at the given spans of its bytes: each span `(start, end)`
/// gives the text between those two byte offsets, which must fall on character
/// boundaries (as the spans of a regex match do).
pub fn words_of_spans(program: &str, spans: &Vec<(usize, usize)>) -> (r: Vec<String>)
    requires
        forall|k: int|
            0 <= k < spans@.len() ==> {
                let m = #[trigger] spans@[k];
                &&& m.0 <= m.1 <= program.spec_bytes().len()
                &&& is_char_boundary(program.spec_bytes(), m.0 as int)
                &&& is_char_boundary(program.spec_bytes(), m.1 as int)
            },
    ensures
        r@.len() == spans@.len(),
        forall|k: int|
            0 <= k < r@.len() ==> encode_utf8(#[trigger] r@[k]@) == program.spec_bytes().subrange(
                spans@[k].0 as int,
                spans@[k].1 as int,
            ),
{
    let ghost bytes = program.spec_bytes();
    proof {
        broadcast use encode_utf8_valid_utf8;

        assert(valid_utf8(bytes));
    }
    let mut res: Vec<String> = Vec::new();
    let mut i: usize = 0;
    while i < spans.len()
        invariant
            i <= spans@.len(),
            bytes == program.spec_bytes(),
            valid_utf8(bytes),
            res@.len() == i,
            forall|k: int|
                0 <= k < spans@.len() ==> {
                    let m = #[trigger] spans@[k];
                    &&& m.0 <= m.1 <= bytes.len()
                    &&& is_char_boundary(bytes, m.0 as int)
                    &&& is_char_boundary(bytes, m.1 as int)
                },
            forall|k: int|
                0 <= k < i ==> encode_utf8(#[trigger] res@[k]@) == bytes.subrange(
                    spans@[k].0 as int,
                    spans@[k].1 as int,
                ),
        decreases spans@.len() - i,
    {
        let (s, e) = spans[i];
        proof {
            let m = spans@[i as int];
            lemma_boundary_of_prefix(bytes, s as int, e as int);
        }
        let (head, _) = program.split_at(e);
        let (_, word) = head.split_at(s);
        proof {
            broadcast use encode_utf8_decode_utf8, decode_utf8_encode_utf8;

            assert(word.spec_bytes() =~= bytes.subrange(s as int, e as int));
        }
        res.push(word.to_owned());
        i = i + 1;
    }
    res
}

/// Turns e.g. "prog arg1 arg2" into ["prog", "arg1", "arg2"].
///
/// It takes care of single and double quotes, which stay in the words.
/// It doesn't cover all edge cases, so it may not be compatible with real shell
/// arguments parsing.
pub fn tokenize_command(program: &str) -> (r: Vec<String>)
    ensures
        str_regex_compiles(word_pattern()) ==> {
            &&& r@.len() == tokens_spec(program).len()
            &&& forall|i: int| 0 <= i < r@.len() ==> encode_utf8(#[trigger] r@[i]@) == tokens_spec(program)[i]
        },
        !str_regex_compiles(word_pattern()) ==> r@.len() == 0,
{
    let pattern = "\"[^\"]+\"|'[^']+'|[^'\" ]+";
    proof {
        reveal_strlit("\"[^\"]+\"|'[^']+'|[^'\" ]+");
        reveal_strlit("[^");
        reveal_strlit("]+");
        reveal_strlit("|");
        assert(pattern@ =~= word_pattern());
    }
    let re = match compile_str_regex(pattern) {
        Ok(re) => re,
        Err(_) => {
            return Vec::new();
        },
    };
    let spans = str_regex_spans(&re, program);
    words_of_spans(program, &spans)
}

} // verus!
