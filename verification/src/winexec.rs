//! What is run for one item on Windows: the program called directly, or a
//! line written to the standard input of `powershell`.

use vstd::prelude::*;
use vstd::string::*;
use crate::command::{Invocation, InvocationView};
use crate::exec::direct_plan;
use crate::shell::{command_text, shell_line, Dialect};

verus! {

/// The command that runs `prog` on `item` in a subshell: `powershell`
/// reading its commands from standard input, and the shell line to write
/// there.
pub open spec fn subshell_plan(item: Seq<char>, prog: Seq<char>, args: Seq<Seq<char>>) -> InvocationView {
    InvocationView {
        program: "powershell"@,
        args: seq!["-NoProfile"@, "-Command"@, "-"@],
        stdin: Some(shell_line(Dialect::Windows, item, prog, args)),
    }
}

/// The command to run for `item` without a shell.
pub fn execute(item: &str, prog: &str, args: &[&str]) -> (cmd: Invocation)
    ensures
        cmd@ == direct_plan(item@, prog@, args.deep_view()),
{
    crate::exec::execute(item, prog, args)
}

/// The command to run for `item` in a subshell. The program and the
/// arguments are quoted one by one and joined; only an argument that is
/// `|` stays as it is.
pub fn shell_execute(item: &str, prog: &str, args: &[&str]) -> (cmd: Invocation)
    ensures
        cmd@ == subshell_plan(item@, prog@, args.deep_view()),
{
    let line = command_text(Dialect::Windows, item, prog, args);
    let mut shell_args: Vec<String> = Vec::new();
    shell_args.push(String::from_str("-NoProfile"));
    shell_args.push(String::from_str("-Command"));
    shell_args.push(String::from_str("-"));
    assert(shell_args.deep_view() =~= seq!["-NoProfile"@, "-Command"@, "-"@]);
    Invocation { program: String::from_str("powershell"), args: shell_args, stdin: Some(line) }
}

} // verus!
