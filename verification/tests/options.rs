use yargs::driver::{startup, Startup};
use yargs::opt::Opts;

fn parse(args: &[&str]) -> Opts {
    Opts::parse(&strings(args))
}

fn strings(items: &[&str]) -> Vec<String> {
    items.iter().map(|s| s.to_string()).collect()
}

#[test]
fn no_arguments_give_the_defaults() {
    let opts = Opts::parse(&[]);
    assert_eq!(opts.command, None);
    assert!(opts.args.is_empty());
    assert_eq!(opts.fence, "\\r?\\n");
    assert!(!opts.subshell && !opts.cont && !opts.help && !opts.version);
}

#[test]
fn first_positional_is_the_command() {
    let opts = parse(&["echo", "hello", "."]);
    assert_eq!(opts.command, Some(String::from("echo")));
    assert_eq!(opts.args, strings(&["hello", "."]));
    assert_eq!(opts.fence, "\\r?\\n");
}

#[test]
fn first_argument_can_be_a_flag() {
    let opts = Opts::parse(&strings(&["-s", "echo"]));
    assert!(opts.subshell);
    assert_eq!(opts.command, Some(String::from("echo")));
    assert!(opts.args.is_empty());
}

#[test]
fn flags_are_taken_once() {
    let opts = parse(&["-s", "-c", "grep", "-c", "-s", "--continue", "--sub", "."]);
    assert!(opts.subshell);
    assert!(opts.cont);
    assert_eq!(opts.command, Some(String::from("grep")));
    assert_eq!(opts.args, strings(&["-c", "-s", "--continue", "--sub", "."]));
}

#[test]
fn every_spelling_of_a_flag_counts() {
    for flag in ["-s", "--sh", "--sub", "--shell", "--subshell"] {
        assert!(parse(&[flag]).subshell, "{}", flag);
    }
    for flag in ["-c", "--cont", "--continue"] {
        assert!(parse(&[flag]).cont, "{}", flag);
    }
    for flag in ["-h", "--help"] {
        assert!(parse(&[flag]).help, "{}", flag);
    }
    for flag in ["-V", "--version"] {
        assert!(parse(&[flag]).version, "{}", flag);
    }
    for flag in ["-d", "--delim", "--delimiter"] {
        assert_eq!(parse(&[flag, ";"]).fence, ";", "{}", flag);
    }
    let opts = parse(&["-v", "--Help", "-C"]);
    assert!(!opts.version && !opts.help && !opts.cont);
    assert_eq!(opts.command, Some(String::from("-v")));
    assert_eq!(opts.args, strings(&["--Help", "-C"]));
}

#[test]
fn help_and_version_are_never_passed_on() {
    let opts = parse(&["ls", "--help", "-h", "-V", "--version"]);
    assert!(opts.help && opts.version);
    assert_eq!(opts.command, Some(String::from("ls")));
    assert!(opts.args.is_empty());
}

#[test]
fn separator_ends_the_options() {
    let opts = parse(&["-c", "--", "-s", "--help", "--", "-d", "x"]);
    assert!(opts.cont);
    assert!(!opts.subshell && !opts.help);
    assert_eq!(opts.command, None);
    assert_eq!(opts.args, strings(&["-s", "--help", "--", "-d", "x"]));
    assert_eq!(opts.fence, "\\r?\\n");
}

#[test]
fn delimiter_takes_what_follows() {
    let opts = parse(&["echo", ".", "-d", ","]);
    assert_eq!(opts.command, Some(String::from("echo")));
    assert_eq!(opts.args, strings(&["."]));
    assert_eq!(opts.fence, ",");
}

#[test]
fn after_a_delimiter_flag_the_last_argument_is_the_pattern() {
    let opts = parse(&["-d", ",", "echo", "-s", "."]);
    assert_eq!(opts.fence, ".");
    assert_eq!(opts.command, None);
    assert!(opts.args.is_empty());
    assert!(!opts.subshell);
}

#[test]
fn delimiter_flag_without_a_pattern_keeps_the_default() {
    let opts = parse(&["echo", "-d"]);
    assert_eq!(opts.fence, "\\r?\\n");
    assert_eq!(opts.command, Some(String::from("echo")));
}

#[test]
fn startup_puts_help_first() {
    assert!(matches!(startup(&parse(&["-h", "-V"])), Startup::Help));
    assert!(matches!(startup(&parse(&["echo", "--help"])), Startup::Help));
    assert!(matches!(startup(&parse(&["-V"])), Startup::Version));
    assert!(matches!(startup(&parse(&["echo", "-V"])), Startup::Version));
    assert!(matches!(startup(&parse(&["-s", "-c"])), Startup::MissingCommand));
    assert!(matches!(startup(&parse(&[])), Startup::MissingCommand));
    assert!(matches!(startup(&parse(&["echo"])), Startup::Run));
}
