use expectrl::repl::{spawn_bash, spawn_powershell, spawn_python, ReplSession};
use expectrl::session::check_buffer;
use expectrl::{Captures, Error, Expect, Needle};

/// A session whose process has printed `output` and then exited.
struct Recorded {
    output: Vec<u8>,
    sent: Vec<u8>,
}

impl Recorded {
    fn new(output: &[u8]) -> Self {
        Recorded { output: output.to_vec(), sent: Vec::new() }
    }
}

impl Expect for Recorded {
    fn expect<N: Needle>(&mut self, needle: N) -> Result<Captures, Error> {
        check_buffer(&mut self.output, needle, true)
    }

    fn check<N: Needle>(&mut self, needle: N) -> Result<Captures, Error> {
        check_buffer(&mut self.output, needle, false)
    }

    fn is_matched<N: Needle>(&mut self, needle: N) -> Result<bool, Error> {
        let mut copy = self.output.clone();
        Ok(!check_buffer(&mut copy, needle, false)?.is_empty())
    }

    fn send(&mut self, buf: &[u8]) -> Result<(), Error> {
        self.sent.extend_from_slice(buf);
        Ok(())
    }

    fn send_line(&mut self, buf: &[u8]) -> Result<(), Error> {
        self.sent.extend_from_slice(buf);
        self.sent.push(b'\n');
        Ok(())
    }
}

#[test]
fn repl_execute_returns_output_before_prompt() {
    let mut repl = ReplSession::new(Recorded::new(b"hello\r\n$ "), String::from("$ "), None, false);
    assert_eq!(repl.get_prompt(), "$ ");
    assert_eq!(repl.get_quit_command(), None);
    assert!(!repl.is_echo());
    let out = repl.execute("echo hello").unwrap();
    assert_eq!(out, b"hello\r\n".to_vec());
    assert_eq!(repl.get_session().sent, b"echo hello\n".to_vec());
}

#[test]
fn repl_send_line_waits_for_echo() {
    let mut repl = ReplSession::new(Recorded::new(b"ls\r\nfile\r\n$ "), String::from("$ "), None, true);
    assert!(repl.is_echo());
    let out = repl.execute("ls").unwrap();
    assert_eq!(out, b"\r\nfile\r\n".to_vec());
}

#[test]
fn repl_exit_sends_quit_command() {
    let mut repl = ReplSession::new(Recorded::new(b""), String::from("> "), None, false);
    repl.exit().unwrap();
    assert!(repl.get_session().sent.is_empty());
    repl.set_quit_command("bye");
    assert_eq!(repl.get_quit_command(), Some("bye"));
    repl.exit().unwrap();
    assert_eq!(repl.into_session().sent, b"bye\n".to_vec());
}

#[test]
fn repl_expect_prompt_fails_without_prompt() {
    let mut repl = ReplSession::new(Recorded::new(b"no prompt here"), String::from(">>> "), None, false);
    assert!(matches!(repl.expect_prompt(), Err(Error::Eof)));
}

#[test]
fn spawn_bash_reads_first_prompt() {
    let bash = spawn_bash(Recorded::new(b"EXPECT_PROMPTrest")).unwrap();
    assert_eq!(bash.get_prompt(), "EXPECT_PROMPT");
    assert_eq!(bash.get_quit_command(), Some("quit"));
    assert!(!bash.is_echo());
    assert_eq!(bash.get_session().output, b"rest".to_vec());
    assert!(matches!(spawn_bash(Recorded::new(b"$ ")), Err(Error::Eof)));
}

#[test]
fn spawn_python_reads_first_prompt() {
    let python = spawn_python(Recorded::new(b"Python 3\n>>> ")).unwrap();
    assert_eq!(python.get_prompt(), ">>> ");
    assert_eq!(python.get_quit_command(), Some("quit()"));
    assert!(python.get_session().output.is_empty());
}

#[test]
fn spawn_powershell_sets_prompt_and_term() {
    let mut output = Vec::new();
    let commands = [
        "function prompt { \"EXPECTED_PROMPT>\"; return \" \" }",
        "[System.Environment]::SetEnvironmentVariable(\"TERM\", \"dumb\")",
        "[System.Environment]::SetEnvironmentVariable(\"TERM\", \"NO_COLOR\")",
    ];
    for command in commands.iter() {
        output.extend_from_slice(command.as_bytes());
        output.extend_from_slice(b"\r\nEXPECTED_PROMPT>");
    }
    let powershell = spawn_powershell(Recorded::new(&output)).unwrap();
    assert_eq!(powershell.get_prompt(), "EXPECTED_PROMPT>");
    assert_eq!(powershell.get_quit_command(), Some("exit"));
    assert!(powershell.is_echo());
    let sent = String::from_utf8(powershell.into_session().sent).unwrap();
    assert_eq!(sent, format!("{}\n{}\n{}\n", commands[0], commands[1], commands[2]));
}

#[test]
fn repl_new_takes_quit_command_and_echo() {
    let repl = ReplSession::new(Recorded::new(b""), String::from("$ "), Some(String::from("exit")), true);
    assert_eq!(repl.get_prompt(), "$ ");
    assert_eq!(repl.get_quit_command(), Some("exit"));
    assert!(repl.is_echo());
}
