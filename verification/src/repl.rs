//! A repl session: a session with a process that prompts for commands.

use vstd::prelude::*;
use vstd::string::StringExecFns;
use vstd::string::StringSliceAdditionalSpecFns;
use vstd::utf8::encode_utf8;

use crate::bytes::copy_bytes;
use crate::captures::{left_most, right_most, Captures};
use crate::error::Error;
use crate::expect::{found_by, Expect};
use crate::needle::{lemma_search_from_leftmost, lemma_span, search_from, span, Match, Needle};
use crate::process::{Healthcheck, Termios};

verus! {

broadcast use vstd::seq::group_seq_axioms;

/// The captures hold the first occurrence of the prompt in some bytes read from
/// a session (as many as a buffer can hold), with these bytes up to its end.
pub open spec fn prompt_found(prompt: Seq<char>, c: Captures) -> bool {
    exists|data: Seq<u8>|
        #![trigger search_from(encode_utf8(prompt), data, 0)]
        search_from(encode_utf8(prompt), data, 0) matches Some(l) && data.len() <= usize::MAX
            && c.spec_matches() == seq![
            span(l as usize, (l + encode_utf8(prompt).len()) as usize),
        ] && c.spec_buf() == data.take(l + encode_utf8(prompt).len())
}

/// `out` is what comes before the first occurrence of the prompt in some bytes
/// read from a session (as many as a buffer can hold).
pub open spec fn before_prompt(prompt: Seq<char>, out: Seq<u8>) -> bool {
    exists|data: Seq<u8>|
        #![trigger search_from(encode_utf8(prompt), data, 0)]
        search_from(encode_utf8(prompt), data, 0) == Some(out.len() as int) && data.len()
            <= usize::MAX && out == data.take(
            out.len() as int,
        )
}

/// A request that a repl session makes of the session it wraps.
pub enum Request {
    /// Bytes sent.
    Send(Seq<u8>),
    /// A line sent: its bytes, which the session follows with a line feed.
    SendLine(Seq<u8>),
    /// A wait for a text in the output, given as the bytes of the text.
    ExpectText(Seq<u8>),
    /// A wait for what another needle finds in the output.
    ExpectNeedle,
    /// A check of the available output.
    Check,
    /// A look at the available output that takes nothing out of it.
    IsMatched,
}

/// A request made of the session, with what the session gave back: `Ok` when it
/// succeeded, or its error.
pub struct SessionCall {
    pub request: Request,
    pub outcome: Result<(), Error>,
}

/// Whether a result is a success, or the error it holds.
pub open spec fn outcome_of<T>(r: Result<T, Error>) -> Result<(), Error> {
    match r {
        Ok(_) => Ok(()),
        Err(e) => Err(e),
    }
}

/// The requests of sending a line: the line, and, when echo is on, a wait for it.
pub open spec fn line_calls(echo: bool, line: Seq<u8>) -> Seq<Request> {
    if echo {
        seq![Request::SendLine(line), Request::ExpectText(line)]
    } else {
        seq![Request::SendLine(line)]
    }
}

/// The requests of executing a command: sending it as a line, then a wait for the prompt.
pub open spec fn execute_calls(echo: bool, cmd: Seq<u8>, prompt: Seq<u8>) -> Seq<Request> {
    line_calls(echo, cmd).push(Request::ExpectText(prompt))
}

/// All the requests of `plan` were made, in order, and each succeeded.
pub open spec fn all_ran(plan: Seq<Request>, made: Seq<SessionCall>) -> bool {
    &&& made.len() == plan.len()
    &&& forall|i: int|
        0 <= i < made.len() ==> #[trigger] made[i].request == plan[i] && made[i].outcome is Ok
}

/// Requests that went through to the end all succeeded.
proof fn lemma_ran_ok(plan: Seq<Request>, made: Seq<SessionCall>)
    requires
        ran(plan, made, Ok(())),
    ensures
        all_ran(plan, made),
{
}

/// Two runs of requests that all succeeded make one.
proof fn lemma_all_ran_append(
    p1: Seq<Request>,
    m1: Seq<SessionCall>,
    p2: Seq<Request>,
    m2: Seq<SessionCall>,
)
    requires
        all_ran(p1, m1),
        all_ran(p2, m2),
    ensures
        all_ran(p1 + p2, m1 + m2),
{
    assert forall|i: int| 0 <= i < (m1 + m2).len() implies #[trigger] (m1 + m2)[i].request == (p1
        + p2)[i] && (m1 + m2)[i].outcome is Ok by {
        if i >= m1.len() {
            assert((m1 + m2)[i] == m2[i - m1.len()]);
        } else {
            assert((m1 + m2)[i] == m1[i]);
        }
    }
}

/// The log `after` goes on from `before`.
pub open spec fn extends(before: Seq<SessionCall>, after: Seq<SessionCall>) -> bool {
    before.len() <= after.len() && after.take(before.len() as int) == before
}

/// The requests of `plan` were made in order, each after the one before it
/// succeeded, until one failed or all were made; `r` is what the last one gave,
/// so that it is `Ok` exactly when all of `plan` went through, and otherwise the
/// error of the request that failed.
pub open spec fn ran(plan: Seq<Request>, made: Seq<SessionCall>, r: Result<(), Error>) -> bool {
    &&& 1 <= made.len() <= plan.len()
    &&& forall|i: int| 0 <= i < made.len() ==> #[trigger] made[i].request == plan[i]
    &&& forall|i: int| 0 <= i < made.len() - 1 ==> #[trigger] made[i].outcome is Ok
    &&& r == made.last().outcome
    &&& made.last().outcome is Ok ==> made.len() == plan.len()
}

/// A repl session: e.g. bash or the python shell:
/// you have a prompt where a user inputs commands and the shell
/// which executes them and manages IO streams.
pub struct ReplSession<S> {
    /// A session with a spawned process.
    session: S,
    /// The prompt, used for `expect_prompt`, e.g. ">>> " for python.
    prompt: String,
    /// A command which will be called before termination.
    quit_command: Option<String>,
    /// Flag to see if echo is turned on.
    is_echo_on: bool,
    /// The requests made of the session so far.
    calls: Ghost<Seq<SessionCall>>,
}

impl<S> ReplSession<S> {
    /// The inner session.
    pub closed spec fn spec_session(&self) -> S {
        self.session
    }

    /// The prompt.
    pub closed spec fn spec_prompt(&self) -> Seq<char> {
        self.prompt@
    }

    /// The quit command, if one is set.
    pub closed spec fn spec_quit_command(&self) -> Option<Seq<char>> {
        match self.quit_command {
            Some(c) => Some(c@),
            None => None,
        }
    }

    /// Whether the commands that are sent are expected back as echo.
    pub closed spec fn spec_echo(&self) -> bool {
        self.is_echo_on
    }

    /// The requests that the repl session made of its session so far.
    pub closed spec fn spec_calls(&self) -> Seq<SessionCall> {
        self.calls@
    }

    /// Creates a repl session.
    ///
    /// The arguments are the session it wraps; the prompt which tells that a
    /// command has run; the command to send on [ReplSession::exit], if any; and
    /// whether the commands that are sent come back as echo, to be waited for.
    pub fn new(session: S, prompt: String, quit_command: Option<String>, is_echo: bool) -> (r: Self)
        ensures
            r.spec_session() == session,
            r.spec_prompt() == prompt@,
            r.spec_quit_command() == (match quit_command {
                Some(c) => Some(c@),
                None => None,
            }),
            r.spec_echo() == is_echo,
            r.spec_calls() == Seq::<SessionCall>::empty(),
    {
        Self { session, prompt, quit_command, is_echo_on: is_echo, calls: Ghost(Seq::empty()) }
    }

    /// Set echo settings to be expected.
    pub fn set_echo(&mut self, on: bool)
        ensures
            final(self).spec_echo() == on,
            final(self).spec_calls() == old(self).spec_calls(),
            final(self).spec_session() == old(self).spec_session(),
            final(self).spec_prompt() == old(self).spec_prompt(),
            final(self).spec_quit_command() == old(self).spec_quit_command(),
    {
        self.is_echo_on = on;
    }

    /// Set quit command which will be called on `exit`.
    pub fn set_quit_command(&mut self, cmd: &str)
        ensures
            final(self).spec_quit_command() == Some(cmd@),
            final(self).spec_calls() == old(self).spec_calls(),
            final(self).spec_echo() == old(self).spec_echo(),
            final(self).spec_session() == old(self).spec_session(),
            final(self).spec_prompt() == old(self).spec_prompt(),
    {
        self.quit_command = Some(String::from_str(cmd));
    }

    /// Get a used prompt.
    pub fn get_prompt(&self) -> (r: &str)
        ensures
            r@ == self.spec_prompt(),
    {
        self.prompt.as_str()
    }

    /// Get a used quit command.
    pub fn get_quit_command(&self) -> (r: Option<&str>)
        ensures
            match self.spec_quit_command() {
                Some(c) => r matches Some(s) && s@ == c,
                None => r is None,
            },
    {
        match &self.quit_command {
            Some(c) => Some(c.as_str()),
            None => None,
        }
    }

    /// Get the echo settings.
    pub fn is_echo(&self) -> (r: bool)
        ensures
            r == self.spec_echo(),
    {
        self.is_echo_on
    }

    /// Get an inner session.
    pub fn into_session(self) -> (r: S)
        ensures
            r == self.spec_session(),
    {
        self.session
    }

    /// Get an inner session.
    pub fn get_session(&self) -> (r: &S)
        ensures
            *r == self.spec_session(),
    {
        &self.session
    }

    /// Get an inner session.
    pub fn get_session_mut(&mut self) -> (r: &mut S)
        ensures
            *r == old(self).spec_session(),
            final(self).spec_session() == *final(r),
            final(self).spec_calls() == old(self).spec_calls(),
            final(self).spec_prompt() == old(self).spec_prompt(),
            final(self).spec_quit_command() == old(self).spec_quit_command(),
            final(self).spec_echo() == old(self).spec_echo(),
    {
        &mut self.session
    }
}

impl<S: Expect> ReplSession<S> {
    /// Block until prompt is found; the error of the wait is passed on.
    pub fn expect_prompt(&mut self) -> (r: Result<(), Error>)
        ensures
            final(self).spec_prompt() == old(self).spec_prompt(),
            final(self).spec_quit_command() == old(self).spec_quit_command(),
            final(self).spec_echo() == old(self).spec_echo(),
            final(self).spec_calls() == old(self).spec_calls().push(
                SessionCall {
                    request: Request::ExpectText(encode_utf8(old(self).spec_prompt())),
                    outcome: outcome_of(r),
                },
            ),
    {
        let _ = self._expect_prompt()?;
        Ok(())
    }

    fn _expect_prompt(&mut self) -> (r: Result<Captures, Error>)
        ensures
            final(self).spec_prompt() == old(self).spec_prompt(),
            final(self).spec_quit_command() == old(self).spec_quit_command(),
            final(self).spec_echo() == old(self).spec_echo(),
            final(self).spec_calls() == old(self).spec_calls().push(
                SessionCall {
                    request: Request::ExpectText(encode_utf8(old(self).spec_prompt())),
                    outcome: outcome_of(r),
                },
            ),
            r matches Ok(c) ==> c.spec_matches().len() > 0 && prompt_found(old(self).spec_prompt(), c),
    {
        let ghost prompt = self.prompt@;
        let r = self.session.expect(&self.prompt);
        self.calls = Ghost(
            self.calls@.push(
                SessionCall { request: Request::ExpectText(encode_utf8(prompt)), outcome: outcome_of(r) },
            ),
        );
        proof {
            broadcast use lemma_span;

            if r is Ok {
                let c = r->Ok_0;
                let p = encode_utf8(prompt);
                assert(found_by(&self.prompt, c));
                let (data, eof) = choose|data: Seq<u8>, eof: bool|
                    {
                        &&& (&self.prompt).spec_check(data, eof) == Ok::<Seq<Match>, Error>(
                            c.spec_matches(),
                        )
                        &&& data.len() <= usize::MAX
                        &&& c.spec_buf() == data.take(right_most(c.spec_matches()) as int)
                        &&& c.spec_matches().len() == 0 ==> !eof
                    };
                assert(search_from(p, data, 0) is Some);
                let l = search_from(p, data, 0)->Some_0;
                let m = span(l as usize, (l + p.len()) as usize);
                assert(c.spec_matches() == seq![m]);
                lemma_span(l as usize, (l + p.len()) as usize);
                lemma_search_from_leftmost(p, data, 0);
                assert(seq![m].drop_first() =~= Seq::<Match>::empty());
                assert(seq![m][0] == m);
                reveal_with_fuel(right_most, 2);
                assert(right_most(seq![m]) == m.end());
                assert(prompt_found(prompt, c));
            }
        }
        r
    }

    /// Send a command to a repl and verifies that it exited.
    /// Returning its output: the bytes that came before the prompt.
    ///
    /// The command is sent as a line; its echo is waited for when echo is on,
    /// and then the prompt. The first request that fails ends the call with its
    /// error.
    pub fn execute(&mut self, cmd: &str) -> (r: Result<Vec<u8>, Error>)
        ensures
            final(self).spec_prompt() == old(self).spec_prompt(),
            final(self).spec_quit_command() == old(self).spec_quit_command(),
            final(self).spec_echo() == old(self).spec_echo(),
            extends(old(self).spec_calls(), final(self).spec_calls()),
            ran(
                execute_calls(
                    old(self).spec_echo(),
                    cmd.spec_bytes(),
                    encode_utf8(old(self).spec_prompt()),
                ),
                final(self).spec_calls().skip(old(self).spec_calls().len() as int),
                outcome_of(r),
            ),
            r matches Ok(out) ==> before_prompt(old(self).spec_prompt(), out@),
    {
        let ghost before = self.calls@;
        let ghost plan = execute_calls(self.is_echo_on, cmd.spec_bytes(), encode_utf8(self.prompt@));
        let ghost line_plan = line_calls(self.is_echo_on, cmd.spec_bytes());
        let sent = self.send_line(cmd);
        let ghost mid = self.calls@;
        if sent.is_err() {
            proof {
                let made = mid.skip(before.len() as int);
                assert forall|i: int| 0 <= i < made.len() implies #[trigger] made[i].request
                    == plan[i] by {
                    assert(made[i].request == line_plan[i]);
                }
            }
            return Err(sent.unwrap_err());
        }
        let ghost prompt = self.prompt@;
        let found = self._expect_prompt();
        proof {
            let made0 = mid.skip(before.len() as int);
            let made = self.calls@.skip(before.len() as int);
            assert(made0.len() == line_plan.len());
            assert(made =~= made0.push(self.calls@.last()));
            assert forall|i: int| 0 <= i < made.len() implies #[trigger] made[i].request
                == plan[i] by {
                if i < made0.len() {
                    assert(made[i] == made0[i]);
                    assert(made0[i].request == line_plan[i]);
                }
            }
            assert forall|i: int| 0 <= i < made.len() - 1 implies #[trigger] made[i].outcome is Ok by {
                assert(made[i] == made0[i]);
            }
            assert(self.calls@.take(before.len() as int) =~= before);
        }
        let found = match found {
            Ok(found) => found,
            Err(e) => {
                return Err(e);
            },
        };
        let out = copy_bytes(found.before());
        proof {
            broadcast use lemma_span;

            let p = encode_utf8(prompt);
            let data = choose|data: Seq<u8>|
                #![trigger search_from(p, data, 0)]
                search_from(p, data, 0) matches Some(l) && data.len() <= usize::MAX
                    && found.spec_matches() == seq![
                    span(l as usize, (l + p.len()) as usize),
                ] && found.spec_buf() == data.take(l + p.len());
            let l = search_from(p, data, 0)->Some_0;
            lemma_search_from_leftmost(p, data, 0);
            let m = span(l as usize, (l + p.len()) as usize);
            lemma_span(l as usize, (l + p.len()) as usize);
            assert(left_most(seq![m]) == m.start());
            assert(out@ =~= data.take(l));
            assert(before_prompt(prompt, out@));
        }
        Ok(out)
    }

    /// Sends line to repl (and flushes the output).
    ///
    /// If echo is on, waits for the input to appear. The first request that
    /// fails ends the call with its error.
    pub fn send_line(&mut self, line: &str) -> (r: Result<(), Error>)
        ensures
            final(self).spec_prompt() == old(self).spec_prompt(),
            final(self).spec_quit_command() == old(self).spec_quit_command(),
            final(self).spec_echo() == old(self).spec_echo(),
            extends(old(self).spec_calls(), final(self).spec_calls()),
            ran(
                line_calls(old(self).spec_echo(), line.spec_bytes()),
                final(self).spec_calls().skip(old(self).spec_calls().len() as int),
                outcome_of(r),
            ),
            exists|m: &mut S, bytes: &[u8], sent: Result<(), Error>|
                #![trigger call_ensures(S::send_line, (m, bytes), sent)]
                {
                    &&& bytes@ == line.spec_bytes()
                    &&& mut_ref_current(m) == old(self).spec_session()
                    &&& call_ensures(S::send_line, (m, bytes), sent)
                    &&& outcome_of(sent) == final(self).spec_calls()[old(self).spec_calls().len() as int].outcome
                    &&& (!old(self).spec_echo() || sent is Err) ==> mut_ref_future(m) == final(self).spec_session()
                },
    {
        let ghost before = self.calls@;
        let bytes = line.as_bytes();
        let sent = self.session.send_line(bytes);
        self.calls = Ghost(
            self.calls@.push(SessionCall { request: Request::SendLine(bytes@), outcome: outcome_of(sent) }),
        );
        proof {
            assert(self.calls@.skip(before.len() as int) =~= seq![self.calls@.last()]);
            assert(self.calls@.take(before.len() as int) =~= before);
        }
        if sent.is_err() {
            return sent;
        }
        if self.is_echo_on {
            let ghost first = self.calls@.last();
            let echoed = self.session.expect(line);
            self.calls = Ghost(
                self.calls@.push(
                    SessionCall { request: Request::ExpectText(bytes@), outcome: outcome_of(echoed) },
                ),
            );
            proof {
                assert(self.calls@.skip(before.len() as int) =~= seq![first, self.calls@.last()]);
                assert(self.calls@.take(before.len() as int) =~= before);
            }
            if echoed.is_err() {
                return Err(echoed.unwrap_err());
            }
        }
        Ok(())
    }

    /// Send a quit command, when one is set, and pass on what the session gave
    /// back; otherwise nothing is sent.
    pub fn exit(&mut self) -> (r: Result<(), Error>)
        ensures
            old(self).spec_quit_command() is None ==> r is Ok && *final(self) == *old(self),
            final(self).spec_prompt() == old(self).spec_prompt(),
            final(self).spec_quit_command() == old(self).spec_quit_command(),
            final(self).spec_echo() == old(self).spec_echo(),
            old(self).spec_quit_command() matches Some(q) ==> final(self).spec_calls() == old(
                self,
            ).spec_calls().push(SessionCall { request: Request::SendLine(encode_utf8(q)), outcome: outcome_of(r) }),
            old(self).spec_quit_command() matches Some(q) ==> exists|m: &mut S, line: &[u8]|
                #![trigger call_ensures(S::send_line, (m, line), r)]
                line@ == encode_utf8(q) && mut_ref_current(m) == old(self).spec_session()
                    && mut_ref_future(m) == final(self).spec_session()
                    && call_ensures(S::send_line, (m, line), r),
    {
        if let Some(quit_command) = &self.quit_command {
            let bytes = quit_command.as_str().as_bytes();
            let sent = self.session.send_line(bytes);
            self.calls = Ghost(
                self.calls@.push(SessionCall { request: Request::SendLine(bytes@), outcome: outcome_of(sent) }),
            );
            return sent;
        }
        Ok(())
    }
}

/// Makes a repl session of a bash process that was spawned with `PS1` set to
/// `EXPECT_PROMPT`: the quit command is `quit`, and the first prompt is read so
/// that it is not seen by the next read.
pub fn spawn_bash<S: Expect>(session: S) -> (r: Result<ReplSession<S>, Error>)
    ensures
        r matches Ok(bash) ==> {
            &&& bash.spec_prompt() == "EXPECT_PROMPT"@
            &&& bash.spec_quit_command() == Some("quit"@)
            &&& !bash.spec_echo()
            &&& all_ran(seq![Request::ExpectText(encode_utf8("EXPECT_PROMPT"@))], bash.spec_calls())
        },
{
    let mut bash = ReplSession::new(
        session,
        String::from_str("EXPECT_PROMPT"),
        Some(String::from_str("quit")),
        false,
    );
    bash.expect_prompt()?;
    Ok(bash)
}

/// Makes a repl session of a spawned python interpreter: the prompt is `>>> `,
/// the quit command is `quit()`, and the first prompt is read.
pub fn spawn_python<S: Expect>(session: S) -> (r: Result<ReplSession<S>, Error>)
    ensures
        r matches Ok(idle) ==> {
            &&& idle.spec_prompt() == ">>> "@
            &&& idle.spec_quit_command() == Some("quit()"@)
            &&& !idle.spec_echo()
            &&& all_ran(seq![Request::ExpectText(encode_utf8(">>> "@))], idle.spec_calls())
        },
{
    let mut idle = ReplSession::new(
        session,
        String::from_str(">>> "),
        Some(String::from_str("quit()")),
        false,
    );
    idle.expect_prompt()?;
    Ok(idle)
}

/// The command that gives powershell the custom prompt.
pub open spec fn powershell_prompt_command() -> Seq<char> {
    "function prompt { \"EXPECTED_PROMPT>\"; return \" \" }"@
}

/// The command that sets `TERM` to `dumb` in powershell.
pub open spec fn powershell_dumb_command() -> Seq<char> {
    "[System.Environment]::SetEnvironmentVariable(\"TERM\", \"dumb\")"@
}

/// The command that sets `TERM` to `NO_COLOR` in powershell.
pub open spec fn powershell_no_color_command() -> Seq<char> {
    "[System.Environment]::SetEnvironmentVariable(\"TERM\", \"NO_COLOR\")"@
}

/// Makes a repl session of a spawned powershell.
///
/// It sets a custom prompt, `EXPECTED_PROMPT>`, to be able to control the shell,
/// expects the commands it sends to be echoed, quits with `exit`, and turns off
/// the coloured output of the shell: the three commands are executed in turn.
pub fn spawn_powershell<S: Expect>(session: S) -> (r: Result<ReplSession<S>, Error>)
    ensures
        r matches Ok(powershell) ==> {
            let prompt = encode_utf8("EXPECTED_PROMPT>"@);
            &&& powershell.spec_prompt() == "EXPECTED_PROMPT>"@
            &&& powershell.spec_quit_command() == Some("exit"@)
            &&& powershell.spec_echo()
            &&& all_ran(
                execute_calls(true, encode_utf8(powershell_prompt_command()), prompt)
                    + execute_calls(true, encode_utf8(powershell_dumb_command()), prompt)
                    + execute_calls(true, encode_utf8(powershell_no_color_command()), prompt),
                powershell.spec_calls(),
            )
        },
{
    let mut powershell = ReplSession::new(
        session,
        String::from_str("EXPECTED_PROMPT>"),
        Some(String::from_str("exit")),
        true,
    );
    let prompt_command = "function prompt { \"EXPECTED_PROMPT>\"; return \" \" }";
    let dumb_command = "[System.Environment]::SetEnvironmentVariable(\"TERM\", \"dumb\")";
    let no_color_command = "[System.Environment]::SetEnvironmentVariable(\"TERM\", \"NO_COLOR\")";
    let ghost prompt = encode_utf8("EXPECTED_PROMPT>"@);
    let _ = powershell.execute(prompt_command)?;
    let ghost made1 = powershell.calls@;
    let _ = powershell.execute(dumb_command)?;
    let ghost made2 = powershell.calls@;
    let _ = powershell.execute(no_color_command)?;
    proof {
        let p1 = execute_calls(true, encode_utf8(powershell_prompt_command()), prompt);
        let p2 = execute_calls(true, encode_utf8(powershell_dumb_command()), prompt);
        let p3 = execute_calls(true, encode_utf8(powershell_no_color_command()), prompt);
        let all = powershell.calls@;
        assert(made1.skip(0) =~= made1);
        lemma_ran_ok(p1, made1);
        lemma_ran_ok(p2, made2.skip(made1.len() as int));
        lemma_ran_ok(p3, all.skip(made2.len() as int));
        assert(made2 =~= made1 + made2.skip(made1.len() as int));
        lemma_all_ran_append(p1, made1, p2, made2.skip(made1.len() as int));
        assert(all =~= made2 + all.skip(made2.len() as int));
        lemma_all_ran_append(p1 + p2, made2, p3, all.skip(made2.len() as int));
    }
    Ok(powershell)
}

impl<S: Healthcheck> Healthcheck for ReplSession<S> {
    type Status = S::Status;

    /// The status that the inner session's `get_status` gives.
    fn get_status(&self) -> (r: std::io::Result<Self::Status>)
        ensures
            call_ensures(S::get_status, (&self.spec_session(),), r),
    {
        self.session.get_status()
    }

    /// What the inner session's `is_alive` answers.
    fn is_alive(&self) -> (r: std::io::Result<bool>)
        ensures
            call_ensures(S::is_alive, (&self.spec_session(),), r),
    {
        self.session.is_alive()
    }
}

impl<S: Termios> Termios for ReplSession<S> {
    fn is_echo(&self) -> std::io::Result<bool> {
        self.session.is_echo()
    }

    fn set_echo(&mut self, on: bool) -> std::io::Result<bool> {
        self.session.set_echo(on)
    }
}

impl<S: Expect> Expect for ReplSession<S> {
    fn expect<N: Needle>(&mut self, needle: N) -> (r: Result<Captures, Error>)
        ensures
            final(self).spec_calls() == old(self).spec_calls().push(
                SessionCall { request: Request::ExpectNeedle, outcome: outcome_of(r) },
            ),
    {
        let r = self.session.expect(needle);
        self.calls = Ghost(
            self.calls@.push(SessionCall { request: Request::ExpectNeedle, outcome: outcome_of(r) }),
        );
        r
    }

    fn check<N: Needle>(&mut self, needle: N) -> (r: Result<Captures, Error>)
        ensures
            final(self).spec_calls() == old(self).spec_calls().push(
                SessionCall { request: Request::Check, outcome: outcome_of(r) },
            ),
    {
        let r = self.session.check(needle);
        self.calls = Ghost(
            self.calls@.push(SessionCall { request: Request::Check, outcome: outcome_of(r) }),
        );
        r
    }

    fn is_matched<N: Needle>(&mut self, needle: N) -> (r: Result<bool, Error>)
        ensures
            final(self).spec_calls() == old(self).spec_calls().push(
                SessionCall { request: Request::IsMatched, outcome: outcome_of(r) },
            ),
    {
        let r = self.session.is_matched(needle);
        self.calls = Ghost(
            self.calls@.push(SessionCall { request: Request::IsMatched, outcome: outcome_of(r) }),
        );
        r
    }

    fn send(&mut self, buf: &[u8]) -> (r: Result<(), Error>)
        ensures
            final(self).spec_calls() == old(self).spec_calls().push(
                SessionCall { request: Request::Send(buf@), outcome: outcome_of(r) },
            ),
            exists|m: &mut S|
                #![trigger call_ensures(S::send, (m, buf), r)]
                mut_ref_current(m) == old(self).spec_session()
                    && mut_ref_future(m) == final(self).spec_session()
                    && call_ensures(S::send, (m, buf), r),
    {
        let r = self.session.send(buf);
        self.calls = Ghost(
            self.calls@.push(SessionCall { request: Request::Send(buf@), outcome: outcome_of(r) }),
        );
        r
    }

    fn send_line(&mut self, buf: &[u8]) -> (r: Result<(), Error>) {
        let r = self.session.send_line(buf);
        self.calls = Ghost(
            self.calls@.push(SessionCall { request: Request::SendLine(buf@), outcome: outcome_of(r) }),
        );
        r
    }
}

} // verus!
