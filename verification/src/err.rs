//! The error type shared by the whole crate, and the messages of the
//! failures of a command.

use vstd::prelude::*;
use vstd::string::*;
use crate::command::{ExecutionOutcome, Invocation, InvocationView, OutcomeView};
use crate::text::{decimal, int_to_string};

verus! {

/// An error with a human-readable message.
#[derive(Debug)]
pub struct YargErr(String);

impl View for YargErr {
    type V = Seq<char>;

    closed spec fn view(&self) -> Seq<char> {
        self.0@
    }
}

/// A program and its arguments on one line, with single spaces between.
pub open spec fn command_line(program: Seq<char>, args: Seq<Seq<char>>) -> Seq<char>
    decreases args.len(),
{
    if args.len() == 0 {
        program
    } else {
        command_line(program, args.drop_last()) + seq![' '] + args.last()
    }
}

/// The line of a command, as the messages show it.
pub open spec fn line_of(cmd: InvocationView) -> Seq<char> {
    command_line(cmd.program, cmd.args)
}

pub open spec fn with_msg_text(cmd: InvocationView, msg: Seq<char>) -> Seq<char> {
    line_of(cmd) + ": "@ + msg
}

pub open spec fn exec_err_text(cmd: InvocationView, cause: Seq<char>) -> Seq<char> {
    "error spawning "@ + line_of(cmd) + ": "@ + cause
}

pub open spec fn exit_err_text(cmd: InvocationView, code: Option<i32>) -> Seq<char> {
    match code {
        Some(c) => line_of(cmd) + " returned exit code "@ + decimal(c as int),
        None => line_of(cmd) + " exited with failure"@,
    }
}

pub open spec fn io_error_text(cause: Seq<char>) -> Seq<char> {
    "I/O error: "@ + cause
}

pub open spec fn fmt_error_text(cause: Seq<char>) -> Seq<char> {
    "fmt error: "@ + cause
}

/// The message for a command whose run ended in `outcome`, or `None` for one
/// that succeeded.
pub open spec fn failure_text(cmd: InvocationView, outcome: OutcomeView) -> Option<Seq<char>> {
    match outcome {
        OutcomeView::Success => None,
        OutcomeView::NonZeroExit(code) => Some(
            line_of(cmd) + " returned exit code "@ + decimal(code),
        ),
        OutcomeView::SignalTerminated => Some(line_of(cmd) + " exited with failure"@),
        OutcomeView::SpawnFailed(cause) => Some(exec_err_text(cmd, cause)),
    }
}

/// Only a success passes without a message, and every message names the
/// command: it holds the command's line.
pub proof fn lemma_failure_names_command(cmd: InvocationView, outcome: OutcomeView)
    ensures
        failure_text(cmd, outcome) is None <==> outcome is Success,
        failure_text(cmd, outcome) matches Some(msg) ==> exists|before: Seq<char>, after: Seq<char>|
            msg == before + line_of(cmd) + after,
{
    let line = line_of(cmd);
    let nothing = Seq::<char>::empty();
    match outcome {
        OutcomeView::Success => {},
        OutcomeView::NonZeroExit(code) => {
            let after = " returned exit code "@ + decimal(code);
            assert(line + " returned exit code "@ + decimal(code) =~= nothing + line + after);
        },
        OutcomeView::SignalTerminated => {
            assert(line + " exited with failure"@ =~= nothing + line + " exited with failure"@);
        },
        OutcomeView::SpawnFailed(cause) => {
            assert(exec_err_text(cmd, cause) =~= "error spawning "@ + line + (": "@ + cause));
        },
    }
}

/// Writes a command on one line.
pub fn format_cmd(prog: &Invocation) -> (line: String)
    ensures
        line@ == line_of(prog@),
{
    let mut line = prog.program.clone();
    let ghost args = prog.args.deep_view();
    let mut i: usize = 0;
    while i < prog.args.len()
        invariant
            i <= prog.args.len(),
            args == prog.args.deep_view(),
            line@ == command_line(prog.program@, args.take(i as int)),
        decreases prog.args.len() - i,
    {
        proof {
            reveal_strlit(" ");
            assert(args.take(i + 1).drop_last() =~= args.take(i as int));
        }
        line.append(" ");
        line.append(prog.args[i].as_str());
        i += 1;
    }
    assert(args.take(i as int) =~= args);
    line
}

impl YargErr {
    /// An error whose message is `msg`.
    pub fn new(msg: String) -> (err: YargErr)
        ensures
            err@ == msg@,
    {
        YargErr(msg)
    }

    /// The message of this error.
    pub fn to_string(&self) -> (msg: String)
        ensures
            msg@ == self@,
    {
        self.0.clone()
    }

    /// An error about the command `prog`: its line, then `msg`.
    pub fn with_msg(prog: &Invocation, msg: String) -> (err: YargErr)
        ensures
            err@ == with_msg_text(prog@, msg@),
    {
        let mut text = format_cmd(prog);
        text.append(": ");
        text.append(msg.as_str());
        YargErr(text)
    }

    /// The error for a command that could not be started; `cause` is the
    /// text of the operating system's error.
    pub fn exec_err(prog: &Invocation, cause: &str) -> (err: YargErr)
        ensures
            err@ == exec_err_text(prog@, cause@),
    {
        let mut text = String::from_str("error spawning ");
        let line = format_cmd(prog);
        text.append(line.as_str());
        text.append(": ");
        text.append(cause);
        YargErr(text)
    }

    /// The error for a command that ran and failed, with its exit status or,
    /// after a signal, without one.
    pub fn exit_err(prog: &Invocation, code: Option<i32>) -> (err: YargErr)
        ensures
            err@ == exit_err_text(prog@, code),
    {
        let mut text = format_cmd(prog);
        match code {
            Some(c) => {
                text.append(" returned exit code ");
                let digits = int_to_string(c);
                text.append(digits.as_str());
            },
            None => {
                text.append(" exited with failure");
            },
        }
        YargErr(text)
    }

    /// The error for a failed read or write; `cause` is the text of the
    /// operating system's error.
    pub fn io_error(cause: &str) -> (err: YargErr)
        ensures
            err@ == io_error_text(cause@),
    {
        let mut text = String::from_str("I/O error: ");
        text.append(cause);
        YargErr(text)
    }

    /// The error for a failed formatting; `cause` is the text of the
    /// formatter's error.
    pub fn fmt_error(cause: &str) -> (err: YargErr)
        ensures
            err@ == fmt_error_text(cause@),
    {
        let mut text = String::from_str("fmt error: ");
        text.append(cause);
        YargErr(text)
    }

    /// What the run of `prog` comes to: nothing to report after a success,
    /// else the error that names the command and the failure.
    pub fn report(prog: &Invocation, outcome: ExecutionOutcome) -> (res: Result<(), YargErr>)
        ensures
            match res {
                Ok(_) => failure_text(prog@, outcome@) is None,
                Err(err) => failure_text(prog@, outcome@) == Some(err@),
            },
    {
        match outcome {
            ExecutionOutcome::Success => Ok(()),
            ExecutionOutcome::NonZeroExit(code) => Err(YargErr::exit_err(prog, Some(code))),
            ExecutionOutcome::SignalTerminated => Err(YargErr::exit_err(prog, None)),
            ExecutionOutcome::SpawnFailed(cause) => Err(YargErr::exec_err(prog, cause.as_str())),
        }
    }
}

} // verus!
