//! The decisions of a run: what to do at the start, and whether to go on
//! after an item.

use vstd::prelude::*;
use crate::err::YargErr;
use crate::opt::Opts;

verus! {

/// What the options ask for before any item is read.
#[derive(Clone, Copy, Debug)]
pub enum Startup {
    /// Print the help text and leave.
    Help,
    /// Print the version and leave.
    Version,
    /// No command was given: complain and leave.
    MissingCommand,
    /// Process the input.
    Run,
}

/// What follows the run of one item's command.
#[derive(Debug)]
pub enum Verdict {
    /// The command succeeded: take the next item.
    Proceed,
    /// The command failed and errors do not stop the run: report the
    /// message and take the next item.
    Report(String),
    /// The command failed: stop, with this message as the result of the
    /// run.
    Halt(String),
}

/// A `Verdict` as mathematical values.
pub enum VerdictView {
    Proceed,
    Report(Seq<char>),
    Halt(Seq<char>),
}

impl View for Verdict {
    type V = VerdictView;

    open spec fn view(&self) -> VerdictView {
        match self {
            Verdict::Proceed => VerdictView::Proceed,
            Verdict::Report(msg) => VerdictView::Report(msg@),
            Verdict::Halt(msg) => VerdictView::Halt(msg@),
        }
    }
}

/// Help goes before version, and both before a missing command.
pub open spec fn startup_of(help: bool, version: bool, has_command: bool) -> Startup {
    if help {
        Startup::Help
    } else if version {
        Startup::Version
    } else if !has_command {
        Startup::MissingCommand
    } else {
        Startup::Run
    }
}

/// What to do at the start of a run.
pub fn startup(opts: &Opts) -> (s: Startup)
    ensures
        s == startup_of(opts.help, opts.version, opts.command is Some),
{
    if opts.help {
        Startup::Help
    } else if opts.version {
        Startup::Version
    } else if opts.command.is_none() {
        Startup::MissingCommand
    } else {
        Startup::Run
    }
}

/// A success never stops the run. A failure stops it unless errors are to
/// be passed over, and then it is reported.
pub open spec fn verdict_of(cont: bool, failure: Option<Seq<char>>) -> VerdictView {
    match failure {
        None => VerdictView::Proceed,
        Some(msg) => if cont {
            VerdictView::Report(msg)
        } else {
            VerdictView::Halt(msg)
        },
    }
}

/// The message of a failed result, `None` for a success.
pub open spec fn failure_of(res: Result<(), YargErr>) -> Option<Seq<char>> {
    match res {
        Ok(_) => None,
        Err(err) => Some(err@),
    }
}

/// Whether to go on after one item, whose command ended in `res`; `cont`
/// says that errors do not stop the run.
pub fn decide(cont: bool, res: Result<(), YargErr>) -> (verdict: Verdict)
    ensures
        verdict@ == verdict_of(cont, failure_of(res)),
{
    match res {
        Ok(_) => Verdict::Proceed,
        Err(err) => if cont {
            Verdict::Report(err.to_string())
        } else {
            Verdict::Halt(err.to_string())
        },
    }
}

/// What a run over some items comes to.
pub struct Summary {
    /// How many commands were started.
    pub dispatched: nat,
    /// The messages that were reported on the way, in order.
    pub reports: Seq<Seq<char>>,
    /// The message that stopped the run, `None` where it reached the end.
    pub halted: Option<Seq<char>>,
}

/// The run over items whose commands end as `failures` says, one after the
/// other: `None` for a command that succeeds, else its message. After each
/// command the verdict decides whether the next is started.
pub open spec fn summary(cont: bool, failures: Seq<Option<Seq<char>>>) -> Summary
    decreases failures.len(),
{
    if failures.len() == 0 {
        Summary { dispatched: 0, reports: Seq::empty(), halted: None }
    } else {
        let rest = summary(cont, failures.drop_first());
        match verdict_of(cont, failures.first()) {
            VerdictView::Proceed => Summary { dispatched: rest.dispatched + 1, ..rest },
            VerdictView::Report(msg) => Summary {
                dispatched: rest.dispatched + 1,
                reports: seq![msg] + rest.reports,
                halted: rest.halted,
            },
            VerdictView::Halt(msg) => Summary {
                dispatched: 1,
                reports: Seq::empty(),
                halted: Some(msg),
            },
        }
    }
}

/// The messages of the commands that fail, in order.
pub open spec fn messages(failures: Seq<Option<Seq<char>>>) -> Seq<Seq<char>>
    decreases failures.len(),
{
    if failures.len() == 0 {
        Seq::empty()
    } else {
        match failures.first() {
            Some(msg) => seq![msg] + messages(failures.drop_first()),
            None => messages(failures.drop_first()),
        }
    }
}

/// Where errors do not stop the run, every command is started, every
/// failure is reported, and the run reaches its end.
pub proof fn lemma_continue_runs_all(failures: Seq<Option<Seq<char>>>)
    ensures
        summary(true, failures).dispatched == failures.len(),
        summary(true, failures).halted is None,
        summary(true, failures).reports == messages(failures),
    decreases failures.len(),
{
    if failures.len() > 0 {
        lemma_continue_runs_all(failures.drop_first());
    }
}

/// Where errors stop the run, the first command that fails is the last
/// that is started, and its message is the result of the run. Nothing is
/// reported on the way.
pub proof fn lemma_halt_at_first_failure(failures: Seq<Option<Seq<char>>>, first: int)
    requires
        0 <= first < failures.len(),
        failures[first] is Some,
        forall|i: int| 0 <= i < first ==> failures[i] is None,
    ensures
        summary(false, failures).dispatched == first + 1,
        summary(false, failures).halted == failures[first],
        summary(false, failures).reports.len() == 0,
    decreases first,
{
    if first > 0 {
        let rest = failures.drop_first();
        assert forall|i: int| 0 <= i < first - 1 implies rest[i] is None by {
            assert(rest[i] == failures[i + 1]);
        }
        lemma_halt_at_first_failure(rest, first - 1);
    }
}

/// A run in which no command fails starts every command and reaches its
/// end, whether errors would stop it or not.
pub proof fn lemma_no_failure_runs_all(cont: bool, failures: Seq<Option<Seq<char>>>)
    requires
        forall|i: int| 0 <= i < failures.len() ==> failures[i] is None,
    ensures
        summary(cont, failures).dispatched == failures.len(),
        summary(cont, failures).halted is None,
        summary(cont, failures).reports.len() == 0,
    decreases failures.len(),
{
    if failures.len() > 0 {
        let rest = failures.drop_first();
        assert forall|i: int| 0 <= i < rest.len() implies rest[i] is None by {
            assert(rest[i] == failures[i + 1]);
        }
        lemma_no_failure_runs_all(cont, rest);
    }
}

} // verus!
