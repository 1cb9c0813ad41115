use yargs::command::{ExecutionOutcome, Invocation};
use yargs::driver::{decide, Verdict};
use yargs::err::{format_cmd, YargErr};
use yargs::exec::{execute, shell_execute, substitute};
use yargs::shell::{command_text, escape, is_pipe, is_placeholder, Dialect};
use yargs::text::{int_to_string, str_eq};

fn strings(items: &[&str]) -> Vec<String> {
    items.iter().map(|s| s.to_string()).collect()
}

fn argv(cmd: &Invocation) -> Vec<String> {
    let mut all = vec![cmd.program.clone()];
    all.extend(cmd.args.iter().cloned());
    all
}

fn invocation(program: &str, args: &[&str]) -> Invocation {
    Invocation { program: program.to_string(), args: strings(args), stdin: None }
}

#[test]
fn placeholder_is_replaced_by_the_item() {
    let cmd = execute("x", "echo", &["."]);
    assert_eq!(argv(&cmd), strings(&["echo", "x"]));
    assert_eq!(cmd.stdin, None);
}

#[test]
fn placeholder_inside_a_token_is_not_replaced() {
    let cmd = execute("x", "echo", &["prefix-."]);
    assert_eq!(argv(&cmd), strings(&["echo", "prefix-.", "x"]));
}

#[test]
fn item_is_appended_without_placeholder() {
    let cmd = execute("a.txt", "wc", &["-l"]);
    assert_eq!(argv(&cmd), strings(&["wc", "-l", "a.txt"]));
    assert_eq!(argv(&execute("a.txt", "cat", &[])), strings(&["cat", "a.txt"]));
}

#[test]
fn every_placeholder_is_replaced() {
    let cmd = execute("f", "cp", &[".", "backup", ".", ".."]);
    assert_eq!(argv(&cmd), strings(&["cp", "f", "backup", "f", ".."]));
    assert_eq!(substitute("", &[".", "."]), strings(&["", ""]));
}

#[test]
fn program_of_a_direct_command_is_never_replaced() {
    assert_eq!(argv(&execute("x", ".", &["a"])), strings(&[".", "a", "x"]));
}

#[test]
fn direct_arguments_are_not_quoted() {
    let cmd = execute("two words", "printf", &["%s\n", ".", "|", "a b"]);
    assert_eq!(cmd.args, strings(&["%s\n", "two words", "|", "a b"]));
}

#[test]
fn subshell_runs_sh_with_one_line() {
    let cmd = shell_execute("x", "echo", &["."]);
    assert_eq!(argv(&cmd), strings(&["sh", "-c", "echo x"]));
    assert_eq!(cmd.stdin, None);
}

#[test]
fn subshell_quotes_the_item() {
    let cmd = shell_execute("a \"b", "echo", &["."]);
    assert_eq!(cmd.args, strings(&["-c", "echo 'a \"b'"]));
    let cmd = shell_execute("a \"b", "echo", &["-n"]);
    assert_eq!(cmd.args, strings(&["-c", "echo -n 'a \"b'"]));
}

#[test]
fn subshell_keeps_the_pipe() {
    let cmd = shell_execute("f.txt", "cat", &[".", "|", "wc", "-l"]);
    assert_eq!(cmd.args, strings(&["-c", "cat f.txt | wc -l"]));
    let cmd = shell_execute("|", "echo", &[".", "||", "a|b", ">"]);
    assert_eq!(cmd.args, strings(&["-c", "echo '|' '||' 'a|b' '>'"]));
}

#[test]
fn subshell_program_is_quoted_and_never_replaced() {
    let cmd = shell_execute("my tool", ".", &["--fast"]);
    assert_eq!(cmd.args, strings(&["-c", ". --fast 'my tool'"]));
    let cmd = shell_execute("x", ".", &[]);
    assert_eq!(cmd.args, strings(&["-c", ". x"]));
    let cmd = shell_execute("x", "|", &["."]);
    assert_eq!(cmd.args, strings(&["-c", "'|' x"]));
    let cmd = shell_execute("x", "my tool", &[".", "|", "."]);
    assert_eq!(cmd.args, strings(&["-c", "'my tool' x | x"]));
}

#[test]
fn both_plans_leave_the_program_alone() {
    let direct = execute("x", ".", &["a"]);
    let sub = shell_execute("x", ".", &["a"]);
    assert_eq!(argv(&direct), strings(&[".", "a", "x"]));
    assert_eq!(sub.args, strings(&["-c", ". a x"]));
}

#[test]
fn unix_quoting() {
    assert_eq!(escape(Dialect::Unix, "plain-Word_1=/,.+"), "plain-Word_1=/,.+");
    assert_eq!(escape(Dialect::Unix, ""), "''");
    assert_eq!(escape(Dialect::Unix, "a b"), "'a b'");
    assert_eq!(escape(Dialect::Unix, "it's"), "'it'\\''s'");
    assert_eq!(escape(Dialect::Unix, "hey!"), "'hey'\\!''");
    assert_eq!(escape(Dialect::Unix, "$HOME"), "'$HOME'");
    assert_eq!(escape(Dialect::Unix, "é"), "'é'");
    assert_eq!(escape(Dialect::Unix, "a:b"), "'a:b'");
}

#[test]
fn windows_quoting() {
    assert_eq!(escape(Dialect::Windows, "plain"), "plain");
    assert_eq!(escape(Dialect::Windows, "dir\\file"), "dir\\file");
    assert_eq!(escape(Dialect::Windows, "it's!"), "it's!");
    assert_eq!(escape(Dialect::Windows, ""), "\"\"");
    assert_eq!(escape(Dialect::Windows, "a b"), "\"a b\"");
    assert_eq!(escape(Dialect::Windows, "a\tb"), "\"a\tb\"");
    assert_eq!(escape(Dialect::Windows, "a\nb"), "\"a\nb\"");
    assert_eq!(escape(Dialect::Windows, "say \"hi\""), "\"say \\\"hi\\\"\"");
    assert_eq!(escape(Dialect::Windows, "dir\\my docs\\"), "\"dir\\my docs\\\\\"");
    assert_eq!(escape(Dialect::Windows, "a\\\\\"b"), "\"a\\\\\\\\\\\"b\"");
    assert_eq!(escape(Dialect::Windows, "\\\\ \\x"), "\"\\\\ \\x\"");
}

#[test]
fn windows_program_is_quoted_and_never_replaced() {
    let cmd = yargs::winexec::shell_execute("a b", ".", &["x"]);
    assert_eq!(cmd.stdin, Some(String::from(". x \"a b\"")));
    let cmd = yargs::winexec::shell_execute("a b", "my tool", &["."]);
    assert_eq!(cmd.stdin, Some(String::from("\"my tool\" \"a b\"")));
}

#[test]
fn windows_subshell_writes_the_line_to_powershell() {
    let cmd = yargs::winexec::shell_execute("a b", "type", &[".", "|", "more"]);
    assert_eq!(
        argv(&cmd),
        strings(&["powershell", "-NoProfile", "-Command", "-"])
    );
    assert_eq!(cmd.stdin, Some(String::from("type \"a b\" | more")));
    let cmd = yargs::winexec::shell_execute("a b", "echo", &[]);
    assert_eq!(cmd.stdin, Some(String::from("echo \"a b\"")));
}

#[test]
fn windows_direct_command_is_the_same() {
    let cmd = yargs::winexec::execute("x", "echo", &[".", "y"]);
    assert_eq!(argv(&cmd), strings(&["echo", "x", "y"]));
    assert_eq!(cmd.stdin, None);
}

#[test]
fn command_text_joins_with_single_spaces() {
    assert_eq!(command_text(Dialect::Unix, "i", "p", &[]), "p i");
    assert_eq!(command_text(Dialect::Unix, "i", "p", &["."]), "p i");
    assert_eq!(command_text(Dialect::Unix, "", "p", &["a", ".", "b"]), "p a '' b");
}

#[test]
fn tokens_are_told_apart() {
    assert!(is_placeholder("."));
    assert!(!is_placeholder(".."));
    assert!(!is_placeholder(""));
    assert!(!is_placeholder("|"));
    assert!(is_pipe("|"));
    assert!(!is_pipe("||"));
    assert!(!is_pipe("."));
}

#[test]
fn string_equality() {
    assert!(str_eq("", ""));
    assert!(str_eq("--delim", "--delim"));
    assert!(!str_eq("--delim", "--delimiter"));
    assert!(!str_eq("a", "b"));
    assert!(!str_eq("é", "e"));
    assert!(str_eq("日本", "日本"));
}

#[test]
fn decimal_numbers() {
    assert_eq!(int_to_string(0), "0");
    assert_eq!(int_to_string(7), "7");
    assert_eq!(int_to_string(10), "10");
    assert_eq!(int_to_string(127), "127");
    assert_eq!(int_to_string(-1), "-1");
    assert_eq!(int_to_string(-1073741819), "-1073741819");
    assert_eq!(int_to_string(i32::MAX), "2147483647");
    assert_eq!(int_to_string(i32::MIN), "-2147483648");
}

#[test]
fn command_on_one_line() {
    assert_eq!(format_cmd(&invocation("ls", &[])), "ls");
    assert_eq!(format_cmd(&invocation("ls", &["-l", "my dir"])), "ls -l my dir");
    assert_eq!(format_cmd(&invocation("sh", &["-c", "echo x"])), "sh -c echo x");
}

#[test]
fn error_messages() {
    let cmd = invocation("wc", &["-l", "a.txt"]);
    assert_eq!(YargErr::new(String::from("plain")).to_string(), "plain");
    assert_eq!(
        YargErr::with_msg(&cmd, String::from("odd")).to_string(),
        "wc -l a.txt: odd"
    );
    assert_eq!(
        YargErr::exec_err(&cmd, "No such file or directory (os error 2)").to_string(),
        "error spawning wc -l a.txt: No such file or directory (os error 2)"
    );
    assert_eq!(
        YargErr::exit_err(&cmd, Some(2)).to_string(),
        "wc -l a.txt returned exit code 2"
    );
    assert_eq!(
        YargErr::exit_err(&cmd, Some(-3)).to_string(),
        "wc -l a.txt returned exit code -3"
    );
    assert_eq!(
        YargErr::exit_err(&cmd, None).to_string(),
        "wc -l a.txt exited with failure"
    );
    assert_eq!(YargErr::io_error("broken pipe").to_string(), "I/O error: broken pipe");
    assert_eq!(YargErr::fmt_error("oops").to_string(), "fmt error: oops");
}

#[test]
fn outcomes_are_classified() {
    assert!(matches!(ExecutionOutcome::exited(Some(0)), ExecutionOutcome::Success));
    assert!(matches!(
        ExecutionOutcome::exited(Some(1)),
        ExecutionOutcome::NonZeroExit(1)
    ));
    assert!(matches!(
        ExecutionOutcome::exited(Some(-1)),
        ExecutionOutcome::NonZeroExit(-1)
    ));
    assert!(matches!(
        ExecutionOutcome::exited(None),
        ExecutionOutcome::SignalTerminated
    ));
    assert!(matches!(
        ExecutionOutcome::spawn_failed("denied"),
        ExecutionOutcome::SpawnFailed(cause) if cause == "denied"
    ));
}

#[test]
fn report_names_the_command_and_the_failure() {
    let cmd = execute("a.txt", "wc", &["-l"]);
    assert!(YargErr::report(&cmd, ExecutionOutcome::Success).is_ok());
    assert_eq!(
        YargErr::report(&cmd, ExecutionOutcome::NonZeroExit(3)).unwrap_err().to_string(),
        "wc -l a.txt returned exit code 3"
    );
    assert_eq!(
        YargErr::report(&cmd, ExecutionOutcome::SignalTerminated).unwrap_err().to_string(),
        "wc -l a.txt exited with failure"
    );
    assert_eq!(
        YargErr::report(&cmd, ExecutionOutcome::SpawnFailed(String::from("not found")))
            .unwrap_err()
            .to_string(),
        "error spawning wc -l a.txt: not found"
    );
    let sub = shell_execute("a b", "wc", &["-l"]);
    assert_eq!(
        YargErr::report(&sub, ExecutionOutcome::NonZeroExit(1)).unwrap_err().to_string(),
        "sh -c wc -l 'a b' returned exit code 1"
    );
}

/// Runs the driver's loop over items whose commands end as `outcomes` says.
/// Gives the number of commands started, the reports, and the result.
fn drive(cont: bool, outcomes: Vec<ExecutionOutcome>) -> (usize, Vec<String>, Result<(), String>) {
    let mut dispatched = 0;
    let mut reports = Vec::new();
    for (n, outcome) in outcomes.into_iter().enumerate() {
        let item = format!("item{}", n + 1);
        let cmd = execute(&item, "process", &["."]);
        dispatched += 1;
        match decide(cont, YargErr::report(&cmd, outcome)) {
            Verdict::Proceed => {}
            Verdict::Report(msg) => reports.push(msg),
            Verdict::Halt(msg) => return (dispatched, reports, Err(msg)),
        }
    }
    (dispatched, reports, Ok(()))
}

fn second_fails() -> Vec<ExecutionOutcome> {
    vec![
        ExecutionOutcome::Success,
        ExecutionOutcome::NonZeroExit(4),
        ExecutionOutcome::Success,
    ]
}

#[test]
fn failure_halts_the_run() {
    let (dispatched, reports, result) = drive(false, second_fails());
    assert_eq!(dispatched, 2);
    assert!(reports.is_empty());
    assert_eq!(result, Err(String::from("process item2 returned exit code 4")));
}

#[test]
fn failure_is_passed_over_on_request() {
    let (dispatched, reports, result) = drive(true, second_fails());
    assert_eq!(dispatched, 3);
    assert_eq!(reports, vec![String::from("process item2 returned exit code 4")]);
    assert_eq!(result, Ok(()));
}

#[test]
fn later_failures_are_reported_too() {
    let outcomes = vec![
        ExecutionOutcome::SpawnFailed(String::from("not found")),
        ExecutionOutcome::Success,
        ExecutionOutcome::SignalTerminated,
    ];
    let (dispatched, reports, result) = drive(true, outcomes);
    assert_eq!(dispatched, 3);
    assert_eq!(
        reports,
        vec![
            String::from("error spawning process item1: not found"),
            String::from("process item3 exited with failure"),
        ]
    );
    assert_eq!(result, Ok(()));
}

#[test]
fn success_never_halts() {
    let all_fine = || {
        vec![
            ExecutionOutcome::Success,
            ExecutionOutcome::Success,
            ExecutionOutcome::Success,
        ]
    };
    assert_eq!(drive(false, all_fine()), (3, Vec::new(), Ok(())));
    assert_eq!(drive(true, all_fine()), (3, Vec::new(), Ok(())));
    assert!(matches!(decide(false, Ok(())), Verdict::Proceed));
    assert!(matches!(decide(true, Ok(())), Verdict::Proceed));
}
