use xlang::cli::{parse_command, parse_positive_u64, parse_usize, CliCommand};
use xlang::error::XError;

fn args(words: &[&str]) -> Vec<String> {
    words.iter().map(|w| w.to_string()).collect()
}

fn parse_error(words: &[&str]) -> String {
    match parse_command(&args(words)) {
        Err(XError::Parse(m)) => m,
        other => panic!("expected a parse error, got {other:?}"),
    }
}

#[test]
fn no_arguments_and_help_flags_mean_help() {
    for words in [&[][..], &["help"][..], &["--help"][..], &["-h"][..]] {
        assert!(matches!(parse_command(&args(words)), Ok(CliCommand::Help)));
    }
}

#[test]
fn check_collects_every_file_in_order() {
    match parse_command(&args(&["check", "a.x", "b.x", "c.x"])) {
        Ok(CliCommand::Check { files }) => assert_eq!(files, vec!["a.x", "b.x", "c.x"]),
        other => panic!("unexpected {other:?}"),
    }
}

#[test]
fn check_without_files_is_a_usage_error() {
    assert_eq!(parse_error(&["check"]), "usage: xlangc check <files...>");
}

#[test]
fn ast_takes_exactly_one_file() {
    match parse_command(&args(&["ast", "main.x"])) {
        Ok(CliCommand::Ast { source }) => assert_eq!(source, "main.x"),
        other => panic!("unexpected {other:?}"),
    }
    assert_eq!(parse_error(&["ast", "a.x", "b.x"]), "usage: xlangc ast <file>");
    assert_eq!(parse_error(&["ast"]), "usage: xlangc ast <file>");
}

#[test]
fn c_command_takes_the_last_output_option() {
    match parse_command(&args(&["c", "main.x", "-o", "first.c", "--output", "second.c"])) {
        Ok(CliCommand::C { source, output }) => {
            assert_eq!(source, "main.x");
            assert_eq!(output.as_deref(), Some("second.c"));
        }
        other => panic!("unexpected {other:?}"),
    }
    match parse_command(&args(&["build", "main.x"])) {
        Ok(CliCommand::Build { source, output }) => {
            assert_eq!(source, "main.x");
            assert!(output.is_none());
        }
        other => panic!("unexpected {other:?}"),
    }
}

#[test]
fn output_option_without_value_is_a_usage_error() {
    assert_eq!(parse_error(&["run", "main.x", "-o"]), "usage: xlangc run <file> [-o output]");
    assert_eq!(
        parse_error(&["c", "main.x", "--verbose"]),
        "usage: xlangc c <file> [-o output.c]"
    );
}

#[test]
fn run_safe_uses_the_default_limits() {
    match parse_command(&args(&["run-safe", "main.x"])) {
        Ok(CliCommand::RunSafe { source, options }) => {
            assert_eq!(source, "main.x");
            assert_eq!(options.timeout_ms, 2000);
            assert_eq!(options.output_limit_bytes, 65536);
        }
        other => panic!("unexpected {other:?}"),
    }
}

#[test]
fn run_safe_reads_both_limits() {
    let words = ["run-safe", "main.x", "--timeout-ms", "150", "--output-limit-bytes", "0"];
    match parse_command(&args(&words)) {
        Ok(CliCommand::RunSafe { options, .. }) => {
            assert_eq!(options.timeout_ms, 150);
            assert_eq!(options.output_limit_bytes, 0);
        }
        other => panic!("unexpected {other:?}"),
    }
}

#[test]
fn run_safe_rejects_bad_limits() {
    assert_eq!(
        parse_error(&["run-safe", "main.x", "--timeout-ms", "0"]),
        "--timeout-ms expects a positive integer"
    );
    assert_eq!(
        parse_error(&["run-safe", "main.x", "--output-limit-bytes", "-3"]),
        "--output-limit-bytes expects a non-negative integer"
    );
}

#[test]
fn unknown_command_is_named_in_the_error() {
    assert_eq!(parse_error(&["frobnicate"]), "unknown command \"frobnicate\"");
}

#[test]
fn positive_integer_options() {
    assert_eq!(parse_positive_u64(&"42".to_string(), "--n").unwrap(), 42);
    assert_eq!(parse_positive_u64(&"+7".to_string(), "--n").unwrap(), 7);
    assert_eq!(
        parse_positive_u64(&"18446744073709551615".to_string(), "--n").unwrap(),
        u64::MAX
    );
    for bad in ["0", "", "x1", "18446744073709551616", "-1"] {
        match parse_positive_u64(&bad.to_string(), "--n") {
            Err(XError::Parse(m)) => assert_eq!(m, "--n expects a positive integer"),
            other => panic!("{bad}: unexpected {other:?}"),
        }
    }
}

#[test]
fn non_negative_integer_options() {
    assert_eq!(parse_usize(&"0".to_string(), "--k").unwrap(), 0);
    assert_eq!(parse_usize(&"65536".to_string(), "--k").unwrap(), 65536);
    match parse_usize(&"1.5".to_string(), "--k") {
        Err(XError::Parse(m)) => assert_eq!(m, "--k expects a non-negative integer"),
        other => panic!("unexpected {other:?}"),
    }
}
