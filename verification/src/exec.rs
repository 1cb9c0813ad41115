//! What is run for one item: the program called directly, or a line handed
//! to `sh`.

use vstd::prelude::*;
use vstd::string::*;
use crate::command::{Invocation, InvocationView};
use crate::shell::{
    command_text, is_placeholder, lemma_contains_push, lemma_joined_reads_back, pipe,
    placeholder, sh_words, shell_line, shell_words, unix_escaped, Dialect,
};

verus! {

/// The arguments of a command for one item: the item in place of every
/// token that is the placeholder. Where no token is, the item is one more
/// argument at the end.
pub open spec fn substituted(item: Seq<char>, args: Seq<Seq<char>>) -> Seq<Seq<char>> {
    let swapped = args.map_values(
        |token: Seq<char>|
            if token == placeholder() {
                item
            } else {
                token
            },
    );
    if args.contains(placeholder()) {
        swapped
    } else {
        swapped.push(item)
    }
}

/// The command that runs `prog` on `item` without a shell.
pub open spec fn direct_plan(item: Seq<char>, prog: Seq<char>, args: Seq<Seq<char>>) -> InvocationView {
    InvocationView { program: prog, args: substituted(item, args), stdin: None }
}

/// The command that runs `prog` on `item` in a subshell: `sh -c` with the
/// shell line as its one argument.
pub open spec fn subshell_plan(item: Seq<char>, prog: Seq<char>, args: Seq<Seq<char>>) -> InvocationView {
    InvocationView {
        program: "sh"@,
        args: seq!["-c"@, shell_line(Dialect::Unix, item, prog, args)],
        stdin: None,
    }
}

/// A subshell runs what the direct command runs. For a template without a
/// pipe, a POSIX shell that reads the shell line finds the program and the
/// arguments of the direct command: as many words as the direct command
/// has, each unchanged, the item whole wherever it stands, whatever
/// characters it holds. This holds under the model of `sh_words`.
pub proof fn lemma_shell_line_reads_back(
    item: Seq<char>,
    prog: Seq<char>,
    args: Seq<Seq<char>>,
)
    requires
        !args.contains(pipe()),
    ensures
        sh_words(shell_line(Dialect::Unix, item, prog, args)) == Some(
            seq![prog] + substituted(item, args),
        ),
{
    let plain = seq![prog] + substituted(item, args);
    let quoted = seq![unix_escaped(prog)] + shell_words(Dialect::Unix, item, args);
    assert(plain.map_values(|w: Seq<char>| unix_escaped(w)) =~= quoted) by {
        assert forall|i: int| 0 <= i < args.len() implies args[i] != pipe() by {
            if args[i] == pipe() {
                assert(args.contains(pipe()));
            }
        }
    }
    lemma_joined_reads_back(plain);
}

/// Puts `item` into the arguments of a template.
pub fn substitute(item: &str, args: &[&str]) -> (out: Vec<String>)
    ensures
        out.deep_view() == substituted(item@, args.deep_view()),
{
    let ghost tokens = args.deep_view();
    let ghost swapped = tokens.map_values(
        |token: Seq<char>|
            if token == placeholder() {
                item@
            } else {
                token
            },
    );
    let mut out: Vec<String> = Vec::new();
    let mut subbed = false;
    let mut i: usize = 0;
    while i < args.len()
        invariant
            i <= args.len(),
            tokens == args.deep_view(),
            swapped == tokens.map_values(
                |token: Seq<char>|
                    if token == placeholder() {
                        item@
                    } else {
                        token
                    },
            ),
            out.deep_view() == swapped.take(i as int),
            subbed == tokens.take(i as int).contains(placeholder()),
        decreases args.len() - i,
    {
        let token = args[i];
        let ghost before = out.deep_view();
        proof {
            lemma_contains_push(tokens.take(i as int), token@, placeholder());
            assert(tokens.take(i + 1) =~= tokens.take(i as int).push(token@));
        }
        if is_placeholder(token) {
            out.push(String::from_str(item));
            subbed = true;
        } else {
            out.push(String::from_str(token));
        }
        assert(out.deep_view() =~= before.push(swapped[i as int]));
        i += 1;
    }
    assert(tokens.take(i as int) =~= tokens);
    assert(swapped.take(i as int) =~= swapped);
    if !subbed {
        out.push(String::from_str(item));
    }
    out
}

/// The command to run for `item` without a shell: `prog` with the
/// arguments of the template, the item in place of the placeholder.
pub fn execute(item: &str, prog: &str, args: &[&str]) -> (cmd: Invocation)
    ensures
        cmd@ == direct_plan(item@, prog@, args.deep_view()),
{
    Invocation { program: String::from_str(prog), args: substitute(item, args), stdin: None }
}

/// The command to run for `item` in a subshell. The program and the
/// arguments are quoted one by one and joined; only an argument that is
/// `|` stays as it is.
pub fn shell_execute(item: &str, prog: &str, args: &[&str]) -> (cmd: Invocation)
    ensures
        cmd@ == subshell_plan(item@, prog@, args.deep_view()),
{
    let line = command_text(Dialect::Unix, item, prog, args);
    let mut shell_args: Vec<String> = Vec::new();
    shell_args.push(String::from_str("-c"));
    shell_args.push(line);
    assert(shell_args.deep_view() =~= seq![
        "-c"@,
        shell_line(Dialect::Unix, item@, prog@, args.deep_view()),
    ]);
    Invocation { program: String::from_str("sh"), args: shell_args, stdin: None }
}

} // verus!
