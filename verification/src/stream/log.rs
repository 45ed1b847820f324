//! Logging of the read and write operations of a session.

use vstd::prelude::*;
use vstd::string::StringExecFns;
use vstd::string::StringSliceAdditionalSpecFns;
use vstd::utf8::*;

verus! {

broadcast use vstd::seq::group_seq_axioms;

/// `Debug` text of a string slice: the string in double quotes, escaped as Rust escapes it.
pub uninterp spec fn str_debug_text(s: Seq<char>) -> Seq<char>;

/// The decimal digit `d`.
pub open spec fn digit(d: int) -> char {
    if d == 0 {
        '0'
    } else if d == 1 {
        '1'
    } else if d == 2 {
        '2'
    } else if d == 3 {
        '3'
    } else if d == 4 {
        '4'
    } else if d == 5 {
        '5'
    } else if d == 6 {
        '6'
    } else if d == 7 {
        '7'
    } else if d == 8 {
        '8'
    } else {
        '9'
    }
}

/// The decimal text of a byte, without leading zeros.
pub open spec fn decimal(n: u8) -> Seq<char> {
    if n < 10 {
        seq![digit(n as int)]
    } else if n < 100 {
        seq![digit((n / 10) as int), digit((n % 10) as int)]
    } else {
        seq![digit((n / 100) as int), digit(((n / 10) % 10) as int), digit((n % 10) as int)]
    }
}

/// The decimal texts of the bytes, separated by `, `.
pub open spec fn decimal_list(b: Seq<u8>) -> Seq<char>
    decreases b.len(),
{
    if b.len() == 0 {
        Seq::empty()
    } else if b.len() == 1 {
        decimal(b[0])
    } else {
        decimal_list(b.drop_last()) + ", "@ + decimal(b.last())
    }
}

/// `Debug` text of a byte slice, as `<[u8] as Debug>::fmt` writes it: the
/// decimal values of the bytes, separated by `, `, in square brackets.
pub open spec fn bytes_debug_text(b: Seq<u8>) -> Seq<char> {
    "["@ + decimal_list(b) + "]"@
}

/// The text of the decimal digit `d`.
fn digit_text(d: u8) -> (r: &'static str)
    requires
        d < 10,
    ensures
        r@ == seq![digit(d as int)],
{
    proof {
        reveal_strlit("0");
        reveal_strlit("1");
        reveal_strlit("2");
        reveal_strlit("3");
        reveal_strlit("4");
        reveal_strlit("5");
        reveal_strlit("6");
        reveal_strlit("7");
        reveal_strlit("8");
        reveal_strlit("9");
    }
    match d {
        0 => "0",
        1 => "1",
        2 => "2",
        3 => "3",
        4 => "4",
        5 => "5",
        6 => "6",
        7 => "7",
        8 => "8",
        _ => "9",
    }
}

/// Appends the decimal text of `n` to `text`.
fn append_decimal(text: &mut String, n: u8)
    ensures
        final(text)@ == old(text)@ + decimal(n),
{
    if n >= 100 {
        text.append(digit_text(n / 100));
    }
    if n >= 10 {
        text.append(digit_text((n / 10) % 10));
    }
    text.append(digit_text(n % 10));
    assert(final(text)@ =~= old(text)@ + decimal(n)) by {
        if n >= 100 {
            assert(n / 100 < 10);
        }
    };
}

/// Decodes `data` as UTF-8 with `std::str::from_utf8`.
///
/// Claims what std documents: it succeeds exactly on valid UTF-8, and then the
/// string's bytes are `data`.
#[verifier::external_body]
fn utf8_str(data: &[u8]) -> (r: Option<&str>)
    ensures
        r is Some <==> valid_utf8(data@),
        r matches Some(s) ==> s.spec_bytes() == data@,
{
    std::str::from_utf8(data).ok()
}

/// Formats a string slice with `{:?}` (`<str as Debug>::fmt`); the result is named.
#[verifier::external_body]
fn debug_str(s: &str) -> (r: String)
    ensures
        r@ == str_debug_text(s@),
{
    format!("{:?}", s)
}

/// Formats a byte slice as `{:?}` does.
fn debug_bytes(b: &[u8]) -> (r: String)
    ensures
        r@ == bytes_debug_text(b@),
{
    proof {
        reveal_strlit("[");
        reveal_strlit(", ");
        reveal_strlit("]");
    }
    let mut text = String::from_str("[");
    let mut i: usize = 0;
    while i < b.len()
        invariant
            i <= b@.len(),
            text@ == "["@ + decimal_list(b@.take(i as int)),
        decreases b@.len() - i,
    {
        let ghost prev = text@;
        if i > 0 {
            text.append(", ");
        }
        append_decimal(&mut text, b[i]);
        proof {
            let t = b@.take(i + 1);
            assert(t.drop_last() =~= b@.take(i as int));
            assert(t.last() == b@[i as int]);
            if i == 0 {
                assert(b@.take(0) =~= Seq::<u8>::empty());
                assert(text@ =~= "["@ + decimal_list(t));
            } else {
                assert(text@ =~= "["@ + decimal_list(t));
            }
        }
        i = i + 1;
    }
    assert(b@.take(i as int) =~= b@);
    text.append("]");
    text
}

/// The line that is logged for an operation `target` on `data`.
///
/// Text data is logged as `target: "text"`, other data as `target:(bytes): [..]`.
pub open spec fn log_line_spec(target: Seq<char>, data: Seq<u8>) -> Seq<char> {
    if valid_utf8(data) {
        target + ": "@ + str_debug_text(decode_utf8(data)) + "\n"@
    } else {
        target + ":(bytes): "@ + bytes_debug_text(data) + "\n"@
    }
}

/// The line that is logged for an operation `target` on `data`.
pub fn log_line(target: &str, data: &[u8]) -> (r: String)
    ensures
        r@ == log_line_spec(target@, data@),
{
    let line = String::from_str(target);
    match utf8_str(data) {
        Some(text) => {
            proof {
                broadcast use encode_utf8_decode_utf8;

                assert(decode_utf8(data@) == text@);
            }
            let line = line.concat(": ");
            let line = line.concat(debug_str(text).as_str());
            line.concat("\n")
        },
        None => {
            let line = line.concat(":(bytes): ");
            let line = line.concat(debug_bytes(data).as_str());
            line.concat("\n")
        },
    }
}

/// The bytes that a vectored write of `n` bytes wrote: the first `n` bytes of the
/// buffers, one after the other.
pub open spec fn written_spec(bufs: Seq<Seq<u8>>, n: nat) -> Seq<u8>
    decreases bufs.len(),
{
    if bufs.len() == 0 {
        Seq::empty()
    } else {
        let first = if bufs[0].len() <= n {
            bufs[0]
        } else {
            bufs[0].take(n as int)
        };
        first + written_spec(bufs.drop_first(), (n - first.len()) as nat)
    }
}

/// The written bytes are the first `n` bytes of the buffers put end to end, or all
/// of them where they hold fewer.
pub proof fn lemma_written_is_prefix(bufs: Seq<Seq<u8>>, n: nat)
    ensures
        written_spec(bufs, n) == bufs.flatten().take(
            if n <= bufs.flatten().len() {
                n as int
            } else {
                bufs.flatten().len() as int
            },
        ),
    decreases bufs.len(),
{
    if bufs.len() > 0 {
        let first = bufs[0];
        let rest = bufs.drop_first();
        assert(bufs.flatten() == first + rest.flatten());
        if first.len() <= n {
            lemma_written_is_prefix(rest, (n - first.len()) as nat);
            assert(written_spec(bufs, n) =~= bufs.flatten().take(
                if n <= bufs.flatten().len() {
                    n as int
                } else {
                    bufs.flatten().len() as int
                },
            ));
        } else {
            lemma_written_is_prefix(rest, 0);
            assert(rest.flatten().take(0) =~= Seq::<u8>::empty());
            assert(written_spec(bufs, n) =~= bufs.flatten().take(n as int));
        }
    } else {
        assert(bufs.flatten().take(0) =~= Seq::<u8>::empty());
    }
}

/// The views of a list of byte slices.
pub open spec fn views(bufs: Seq<&[u8]>) -> Seq<Seq<u8>> {
    bufs.map_values(|b: &[u8]| b@)
}

/// Collects the bytes that a vectored write of `n` bytes took from `bufs`.
pub fn written_bytes(bufs: &[&[u8]], n: usize) -> (r: Vec<u8>)
    ensures
        r@ == written_spec(views(bufs@), n as nat),
{
    let mut rest = n;
    let mut bytes: Vec<u8> = Vec::new();
    let mut i: usize = 0;
    let ghost all = views(bufs@);
    assert(all.skip(0) =~= all);
    loop
        invariant
            i <= bufs@.len(),
            all == views(bufs@),
            all.len() == bufs@.len(),
            bytes@ + written_spec(all.skip(i as int), rest as nat) == written_spec(all, n as nat),
        ensures
            bytes@ == written_spec(all, n as nat),
        decreases bufs@.len() - i,
    {
        if i >= bufs.len() {
            proof {
                assert(all.skip(i as int) =~= Seq::<Seq<u8>>::empty());
                assert(bytes@ + written_spec(all.skip(i as int), rest as nat) =~= bytes@);
            }
            break ;
        }
        let buf = bufs[i];
        let written = if buf.len() < rest {
            buf.len()
        } else {
            rest
        };
        proof {
            let tail = all.skip(i as int);
            assert(tail[0] == buf@);
            assert(tail.drop_first() =~= all.skip(i + 1));
        }
        let ghost prev = bytes@;
        let part = vstd::slice::slice_subrange(buf, 0, written);
        crate::bytes::append_bytes(&mut bytes, part);
        rest = rest - written;
        proof {
            let tail = all.skip(i as int);
            if buf@.len() <= rest + written {
                assert(part@ =~= buf@);
            } else {
                assert(part@ =~= buf@.take((rest + written) as int));
            }
            assert(bytes@ == prev + part@);
        }
        i = i + 1;
        if rest == 0 {
            proof {
                assert(written_spec(all.skip(i as int), 0) =~= Seq::<u8>::empty()) by {
                    lemma_written_nothing(all.skip(i as int));
                }
                assert(bytes@ =~= bytes@ + written_spec(all.skip(i as int), 0));
            }
            break ;
        }
    }
    bytes
}

/// Nothing is written of any buffers when zero bytes were written.
proof fn lemma_written_nothing(bufs: Seq<Seq<u8>>)
    ensures
        written_spec(bufs, 0) =~= Seq::<u8>::empty(),
    decreases bufs.len(),
{
    if bufs.len() > 0 {
        lemma_written_nothing(bufs.drop_first());
        if bufs[0].len() == 0 {
            assert(bufs[0] =~= Seq::<u8>::empty());
        }
    }
}

/// A stream which logs its read and write operations to a logger.
pub struct LoggedStream<S, L> {
    stream: S,
    logger: L,
}

impl<S, L> LoggedStream<S, L> {
    /// The stream that is logged.
    pub closed spec fn spec_stream(&self) -> S {
        self.stream
    }

    /// The logger the lines go to.
    pub closed spec fn spec_logger(&self) -> L {
        self.logger
    }

    /// Creates a stream logged to `logger`.
    pub fn new(stream: S, logger: L) -> (r: Self)
        ensures
            r.spec_stream() == stream,
            r.spec_logger() == logger,
    {
        Self { stream, logger }
    }

    /// A reference to the stream.
    pub fn get_ref(&self) -> (r: &S)
        ensures
            *r == self.spec_stream(),
    {
        &self.stream
    }

    /// A mutable reference to the stream; the logger stays as it is.
    pub fn get_mut(&mut self) -> (r: &mut S)
        ensures
            *r == old(self).spec_stream(),
            final(self).spec_stream() == *final(r),
            final(self).spec_logger() == old(self).spec_logger(),
    {
        &mut self.stream
    }

    /// A mutable reference to the logger; the stream stays as it is.
    pub fn logger_mut(&mut self) -> (r: &mut L)
        ensures
            *r == old(self).spec_logger(),
            final(self).spec_logger() == *final(r),
            final(self).spec_stream() == old(self).spec_stream(),
    {
        &mut self.logger
    }

    /// The stream and the logger, given back.
    pub fn into_parts(self) -> (r: (S, L))
        ensures
            r.0 == self.spec_stream(),
            r.1 == self.spec_logger(),
    {
        (self.stream, self.logger)
    }
}

/// A stream which has nothing to read and takes no bytes when written to.
pub struct EmptyStream;

impl EmptyStream {
    /// Writes nothing: the number of bytes taken is 0.
    pub fn write(&mut self, buf: &[u8]) -> (r: usize)
        ensures
            r == 0,
    {
        0
    }

    /// Reads nothing: the stream is always at its end.
    pub fn read(&mut self, buf: &mut [u8]) -> (r: usize)
        ensures
            r == 0,
            final(buf)@ == old(buf)@,
    {
        0
    }
}

} // verus!
