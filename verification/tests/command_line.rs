use html_template_bench::cli::{next_value, parse_args, Args, ArgsError, Command};
use html_template_bench::decimal::IntErrorKind;

fn words(list: &[&str]) -> Vec<String> {
    list.iter().map(|w| w.to_string()).collect()
}

fn run_args(list: &[&str]) -> Args {
    match parse_args(&words(list)) {
        Ok(Command::Run(args)) => args,
        Ok(Command::Help) => panic!("unexpected help for {list:?}"),
        Err(e) => panic!("unexpected error for {list:?}: {}", e.message()),
    }
}

fn error_message(list: &[&str]) -> String {
    match parse_args(&words(list)) {
        Err(e) => e.message(),
        Ok(_) => panic!("expected an error for {list:?}"),
    }
}

#[test]
fn no_flags_gives_the_defaults() {
    let args = run_args(&[]);
    assert_eq!(args.template, None);
    assert_eq!(args.data, None);
    assert_eq!(args.loops, 60);
    assert_eq!(args.missingkey, "default");
    assert_eq!(args.go_bin, "go");
    assert_eq!(args.go_runner, "tools/compare_go_html_template/main.go");
}

#[test]
fn every_flag_sets_its_field() {
    let args = run_args(&[
        "--template", "t.tmpl", "--data", "d.json", "--loops", "5", "--missingkey", "zero",
        "--go-bin", "/usr/bin/go", "--go-runner", "r.go",
    ]);
    assert_eq!(args.template.as_deref(), Some("t.tmpl"));
    assert_eq!(args.data.as_deref(), Some("d.json"));
    assert_eq!(args.loops, 5);
    assert_eq!(args.missingkey, "zero");
    assert_eq!(args.go_bin, "/usr/bin/go");
    assert_eq!(args.go_runner, "r.go");
}

#[test]
fn a_later_value_replaces_an_earlier_one() {
    let args = run_args(&["--go-bin", "a", "--loops", "3", "--go-bin", "b"]);
    assert_eq!(args.go_bin, "b");
    assert_eq!(args.loops, 3);
}

#[test]
fn help_stops_reading() {
    assert!(matches!(parse_args(&words(&["--help"])), Ok(Command::Help)));
    assert!(matches!(parse_args(&words(&["-h", "--bogus"])), Ok(Command::Help)));
    assert!(matches!(parse_args(&words(&["--loops", "0", "-h"])), Ok(Command::Help)));
}

#[test]
fn refused_command_lines() {
    assert_eq!(error_message(&["--bogus"]), "unknown flag: --bogus");
    assert_eq!(error_message(&["--loops"]), "--loops requires a value");
    assert_eq!(error_message(&["--loops", "0"]), "--loops must be greater than zero");
    assert_eq!(error_message(&["--loops", "x"]), "invalid digit found in string");
    assert_eq!(error_message(&["--loops", ""]), "cannot parse integer from empty string");
    assert_eq!(
        error_message(&["--loops", "99999999999999999999999"]),
        "number too large to fit in target type"
    );
    assert_eq!(
        error_message(&["--missingkey", "maybe"]),
        "--missingkey must be one of default|invalid|zero|error"
    );
    assert!(matches!(
        parse_args(&words(&["--loops", "-1"])),
        Err(ArgsError::InvalidLoops(IntErrorKind::InvalidDigit))
    ));
    // A value is taken as it stands, even when it looks like a flag.
    let args = run_args(&["--data", "--loops"]);
    assert_eq!(args.data.as_deref(), Some("--loops"));
}

#[test]
fn loop_errors_come_before_the_final_checks() {
    assert_eq!(error_message(&["--missingkey", "maybe", "--loops", "z"]), "invalid digit found in string");
    assert_eq!(error_message(&["--loops", "0", "--missingkey", "maybe"]), "--loops must be greater than zero");
}

#[test]
fn next_value_takes_the_following_word() {
    let argv = words(&["--data", "d.json"]);
    assert!(matches!(next_value(&argv, 1, "--data"), Ok(v) if v == "d.json"));
    match next_value(&argv, 2, "--data") {
        Err(e) => assert_eq!(e.message(), "--data requires a value"),
        Ok(_) => panic!("expected an error"),
    }
}
