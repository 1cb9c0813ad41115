//! Command-line options. The command line of this tool carries the
//! command line of another program, so only the first occurrence of a flag
//! is taken as an option; anything else is handed on to that program.

use vstd::prelude::*;
use vstd::string::*;
use crate::text::str_eq;

verus! {

/// How the next argument is read.
#[derive(Clone, Copy, Debug)]
pub enum ArgMode {
    /// Options are still recognised.
    Positional,
    /// After `--`: every argument belongs to the command.
    PostPositional,
    /// After a delimiter flag: the argument is the delimiter pattern.
    Fence,
}

/// The options of one run.
pub struct Opts {
    /// Name of the program or shell command: the first positional argument.
    pub command: Option<String>,
    /// Arguments to the program: the other positional arguments.
    pub args: Vec<String>,
    /// Pattern of the regex that delimits items.
    pub fence: String,
    /// Run each command in a subshell.
    pub subshell: bool,
    /// Go on after a command has failed.
    pub cont: bool,
    /// Print the help text.
    pub help: bool,
    /// Print version information.
    pub version: bool,
}

/// What an `Opts` holds, as mathematical values.
pub struct OptsView {
    pub command: Option<Seq<char>>,
    pub args: Seq<Seq<char>>,
    pub fence: Seq<char>,
    pub subshell: bool,
    pub cont: bool,
    pub help: bool,
    pub version: bool,
}

impl View for Opts {
    type V = OptsView;

    open spec fn view(&self) -> OptsView {
        OptsView {
            command: match self.command {
                Some(e) => Some(e@),
                None => None,
            },
            args: self.args.deep_view(),
            fence: self.fence@,
            subshell: self.subshell,
            cont: self.cont,
            help: self.help,
            version: self.version,
        }
    }
}

/// The parser's state after some arguments.
pub struct ParseState {
    pub mode: ArgMode,
    pub command: Option<Seq<char>>,
    pub args: Seq<Seq<char>>,
    pub fence: Option<Seq<char>>,
    pub subshell: bool,
    pub cont: bool,
    pub help: bool,
    pub version: bool,
}

/// The pattern used when none is given: a line feed, with a carriage return
/// before it or not.
pub open spec fn default_fence() -> Seq<char> {
    "\\r?\\n"@
}

pub open spec fn is_separator(arg: Seq<char>) -> bool {
    arg == "--"@
}

pub open spec fn is_delimiter_flag(arg: Seq<char>) -> bool {
    arg == "-d"@ || arg == "--delim"@ || arg == "--delimiter"@
}

pub open spec fn is_subshell_flag(arg: Seq<char>) -> bool {
    arg == "-s"@ || arg == "--sh"@ || arg == "--sub"@ || arg == "--shell"@ || arg
        == "--subshell"@
}

pub open spec fn is_continue_flag(arg: Seq<char>) -> bool {
    arg == "-c"@ || arg == "--cont"@ || arg == "--continue"@
}

pub open spec fn is_help_flag(arg: Seq<char>) -> bool {
    arg == "-h"@ || arg == "--help"@
}

pub open spec fn is_version_flag(arg: Seq<char>) -> bool {
    arg == "-V"@ || arg == "--version"@
}

/// The state before any argument.
pub open spec fn initial_state() -> ParseState {
    ParseState {
        mode: ArgMode::Positional,
        command: None,
        args: Seq::empty(),
        fence: None,
        subshell: false,
        cont: false,
        help: false,
        version: false,
    }
}

/// The state `st` with `arg` added to the command's arguments.
pub open spec fn pass_on(st: ParseState, arg: Seq<char>) -> ParseState {
    ParseState { args: st.args.push(arg), ..st }
}

/// The state after one more argument.
///
/// A flag counts as an option the first time only; a repeated flag goes to
/// the command. A delimiter flag makes every later argument the pattern, the
/// last one standing.
pub open spec fn parse_arg(st: ParseState, arg: Seq<char>) -> ParseState {
    match st.mode {
        ArgMode::PostPositional => pass_on(st, arg),
        ArgMode::Fence => ParseState { fence: Some(arg), ..st },
        ArgMode::Positional => {
            if is_separator(arg) {
                ParseState { mode: ArgMode::PostPositional, ..st }
            } else if is_delimiter_flag(arg) {
                if st.fence is None {
                    ParseState { mode: ArgMode::Fence, ..st }
                } else {
                    pass_on(st, arg)
                }
            } else if is_subshell_flag(arg) {
                if st.subshell {
                    pass_on(st, arg)
                } else {
                    ParseState { subshell: true, ..st }
                }
            } else if is_continue_flag(arg) {
                if st.cont {
                    pass_on(st, arg)
                } else {
                    ParseState { cont: true, ..st }
                }
            } else if is_help_flag(arg) {
                ParseState { help: true, ..st }
            } else if is_version_flag(arg) {
                ParseState { version: true, ..st }
            } else if st.command is None {
                ParseState { command: Some(arg), ..st }
            } else {
                pass_on(st, arg)
            }
        },
    }
}

/// The state after all of `args`, read from the left.
pub open spec fn parse_args(args: Seq<Seq<char>>) -> ParseState
    decreases args.len(),
{
    if args.len() == 0 {
        initial_state()
    } else {
        parse_arg(parse_args(args.drop_last()), args.last())
    }
}

/// The options that a final state stands for.
pub open spec fn finish(st: ParseState) -> OptsView {
    OptsView {
        command: st.command,
        args: st.args,
        fence: match st.fence {
            Some(f) => f,
            None => default_fence(),
        },
        subshell: st.subshell,
        cont: st.cont,
        help: st.help,
        version: st.version,
    }
}

/// The options that the arguments of the tool stand for. The name under
/// which the tool itself was called is not among them.
pub open spec fn parsed(args: Seq<Seq<char>>) -> OptsView {
    finish(parse_args(args))
}

/// After the separator nothing is an option any more: every later argument
/// goes to the command as it stands, and nothing else changes.
pub proof fn lemma_after_separator(head: Seq<Seq<char>>, tail: Seq<Seq<char>>)
    requires
        parse_args(head).mode is PostPositional,
    ensures
        parse_args(head + tail) == (ParseState {
            args: parse_args(head).args + tail,
            ..parse_args(head)
        }),
    decreases tail.len(),
{
    if tail.len() > 0 {
        let before = parse_args(head);
        assert((head + tail).drop_last() =~= head + tail.drop_last());
        lemma_after_separator(head, tail.drop_last());
        assert((before.args + tail.drop_last()).push(tail.last()) =~= before.args + tail);
    }
}

/// After a delimiter flag every later argument replaces the pattern: the
/// last one is the pattern, and nothing else changes.
pub proof fn lemma_after_delimiter_flag(head: Seq<Seq<char>>, tail: Seq<Seq<char>>)
    requires
        parse_args(head).mode is Fence,
        tail.len() > 0,
    ensures
        parse_args(head + tail) == (ParseState { fence: Some(tail.last()), ..parse_args(head) }),
    decreases tail.len(),
{
    assert((head + tail).drop_last() =~= head + tail.drop_last());
    if tail.len() > 1 {
        lemma_after_delimiter_flag(head, tail.drop_last());
    }
}

fn delimiter_flag(arg: &str) -> (b: bool)
    ensures
        b == is_delimiter_flag(arg@),
{
    str_eq(arg, "-d") || str_eq(arg, "--delim") || str_eq(arg, "--delimiter")
}

fn subshell_flag(arg: &str) -> (b: bool)
    ensures
        b == is_subshell_flag(arg@),
{
    str_eq(arg, "-s") || str_eq(arg, "--sh") || str_eq(arg, "--sub") || str_eq(arg, "--shell")
        || str_eq(arg, "--subshell")
}

fn continue_flag(arg: &str) -> (b: bool)
    ensures
        b == is_continue_flag(arg@),
{
    str_eq(arg, "-c") || str_eq(arg, "--cont") || str_eq(arg, "--continue")
}

fn help_flag(arg: &str) -> (b: bool)
    ensures
        b == is_help_flag(arg@),
{
    str_eq(arg, "-h") || str_eq(arg, "--help")
}

fn version_flag(arg: &str) -> (b: bool)
    ensures
        b == is_version_flag(arg@),
{
    str_eq(arg, "-V") || str_eq(arg, "--version")
}

impl Opts {
    /// Parses the arguments of the tool: those that follow its own name on
    /// the command line.
    pub fn parse(argv: &[String]) -> (opts: Opts)
        ensures
            opts@ == parsed(argv.deep_view()),
    {
        let mut command: Option<String> = None;
        let mut args: Vec<String> = Vec::new();
        let mut fence: Option<String> = None;
        let mut cont = false;
        let mut subshell = false;
        let mut help = false;
        let mut version = false;
        let mut mode = ArgMode::Positional;

        let ghost all = argv.deep_view();
        let mut i: usize = 0;
        while i < argv.len()
            invariant
                i <= argv.len(),
                all == argv.deep_view(),
                ({
                    let st = parse_args(all.take(i as int));
                    &&& st.mode == mode
                    &&& st.command == match command {
                        Some(e) => Some(e@),
                        None => None,
                    }
                    &&& st.args == args.deep_view()
                    &&& st.fence == match fence {
                        Some(f) => Some(f@),
                        None => None,
                    }
                    &&& st.subshell == subshell
                    &&& st.cont == cont
                    &&& st.help == help
                    &&& st.version == version
                }),
            decreases argv.len() - i,
        {
            let arg = argv[i].clone();
            assert(all.take(i + 1).drop_last() =~= all.take(i as int));
            match mode {
                ArgMode::PostPositional => {
                    args.push(arg);
                },
                ArgMode::Fence => {
                    fence = Some(arg);
                },
                ArgMode::Positional => {
                    if str_eq(arg.as_str(), "--") {
                        mode = ArgMode::PostPositional;
                    } else if delimiter_flag(arg.as_str()) {
                        if fence.is_none() {
                            mode = ArgMode::Fence;
                        } else {
                            args.push(arg);
                        }
                    } else if subshell_flag(arg.as_str()) {
                        if subshell {
                            args.push(arg);
                        } else {
                            subshell = true;
                        }
                    } else if continue_flag(arg.as_str()) {
                        if cont {
                            args.push(arg);
                        } else {
                            cont = true;
                        }
                    } else if help_flag(arg.as_str()) {
                        help = true;
                    } else if version_flag(arg.as_str()) {
                        version = true;
                    } else if command.is_none() {
                        command = Some(arg);
                    } else {
                        args.push(arg);
                    }
                },
            }
            i += 1;
        }
        assert(all.take(i as int) =~= all);
        let fence = match fence {
            Some(f) => f,
            None => String::from_str("\\r?\\n"),
        };
        Opts { command, args, fence, cont, subshell, help, version }
    }
}

} // verus!
