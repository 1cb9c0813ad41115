//! A command as it is handed to the operating system, and how its run ended.

use vstd::prelude::*;
use vstd::string::*;

verus! {

/// A program with its arguments, ready to be started.
#[derive(Debug)]
pub struct Invocation {
    /// Name or path of the program.
    pub program: String,
    /// Its arguments, each handed over as it stands.
    pub args: Vec<String>,
    /// Text to write to its standard input, which is then closed.
    pub stdin: Option<String>,
}

/// An `Invocation` as mathematical values.
pub struct InvocationView {
    pub program: Seq<char>,
    pub args: Seq<Seq<char>>,
    pub stdin: Option<Seq<char>>,
}

impl View for Invocation {
    type V = InvocationView;

    open spec fn view(&self) -> InvocationView {
        InvocationView {
            program: self.program@,
            args: self.args.deep_view(),
            stdin: match self.stdin {
                Some(text) => Some(text@),
                None => None,
            },
        }
    }
}

/// How the run of one command ended.
#[derive(Debug)]
pub enum ExecutionOutcome {
    /// It ran and exited with status 0.
    Success,
    /// It ran and exited with this status, which is not 0.
    NonZeroExit(i32),
    /// It ran and was ended by a signal, so there is no status.
    SignalTerminated,
    /// It could not be started; the text says why.
    SpawnFailed(String),
}

/// An `ExecutionOutcome` as mathematical values.
pub enum OutcomeView {
    Success,
    NonZeroExit(int),
    SignalTerminated,
    SpawnFailed(Seq<char>),
}

impl View for ExecutionOutcome {
    type V = OutcomeView;

    open spec fn view(&self) -> OutcomeView {
        match self {
            ExecutionOutcome::Success => OutcomeView::Success,
            ExecutionOutcome::NonZeroExit(code) => OutcomeView::NonZeroExit(*code as int),
            ExecutionOutcome::SignalTerminated => OutcomeView::SignalTerminated,
            ExecutionOutcome::SpawnFailed(cause) => OutcomeView::SpawnFailed(cause@),
        }
    }
}

/// The outcome that a wait for a started program stands for: success on
/// status 0, the status on any other, and no status after a signal.
pub open spec fn exit_outcome(code: Option<i32>) -> OutcomeView {
    match code {
        Some(c) => if c == 0 {
            OutcomeView::Success
        } else {
            OutcomeView::NonZeroExit(c as int)
        },
        None => OutcomeView::SignalTerminated,
    }
}

impl OutcomeView {
    /// A status that stands for a failure is not 0.
    pub open spec fn consistent(self) -> bool {
        self matches OutcomeView::NonZeroExit(code) ==> code != 0
    }
}

impl ExecutionOutcome {
    /// The outcome of a program that was started and waited for, from its
    /// exit status, if it has one.
    pub fn exited(code: Option<i32>) -> (outcome: ExecutionOutcome)
        ensures
            outcome@ == exit_outcome(code),
            outcome@.consistent(),
    {
        match code {
            Some(c) => if c == 0 {
                ExecutionOutcome::Success
            } else {
                ExecutionOutcome::NonZeroExit(c)
            },
            None => ExecutionOutcome::SignalTerminated,
        }
    }

    /// The outcome of a program that could not be started.
    pub fn spawn_failed(cause: &str) -> (outcome: ExecutionOutcome)
        ensures
            outcome@ == OutcomeView::SpawnFailed(cause@),
            outcome@.consistent(),
    {
        ExecutionOutcome::SpawnFailed(String::from_str(cause))
    }
}

} // verus!
