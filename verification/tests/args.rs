use cme_md_connector::args::{has_flag, parse_args, wants_help, ArgError};

fn args(a: &[&str]) -> Vec<String> {
    a.iter().map(|s| s.to_string()).collect()
}

#[test]
fn flags_and_options_are_told_apart() {
    let (flags, opts) =
        parse_args(&args(&["--rate", "100", "--no-dashboard", "--seed", "--calibrate"])).unwrap();
    assert_eq!(flags, args(&["no-dashboard"]));
    assert!(has_flag(&flags, "no-dashboard"));
    assert!(!has_flag(&flags, "calibrate"));
    assert_eq!(opts.get("rate"), Some("100"));
    assert_eq!(opts.get("seed"), Some("--calibrate"));
    assert_eq!(opts.get("port"), None);
}

#[test]
fn the_last_of_repeated_options_wins() {
    let (_, opts) = parse_args(&args(&["--port", "1", "--tick", "x", "--port", "2"])).unwrap();
    assert_eq!(opts.get("port"), Some("2"));
    assert_eq!(opts.get("tick"), Some("x"));
}

#[test]
fn stray_and_incomplete_arguments_are_refused() {
    let stray = parse_args(&args(&["--calibrate", "rate", "3"])).unwrap_err();
    assert_eq!(stray, ArgError::Unexpected("rate".to_string()));
    assert_eq!(stray.message(), "unexpected argument `rate`");
    let missing = parse_args(&args(&["--rate"])).unwrap_err();
    assert_eq!(missing, ArgError::MissingValue("rate".to_string()));
    assert_eq!(missing.message(), "missing value for `--rate`");
    assert_eq!(
        parse_args(&args(&["-"])).unwrap_err(),
        ArgError::Unexpected("-".to_string())
    );
}

#[test]
fn an_empty_command_line_holds_nothing() {
    let (flags, opts) = parse_args(&Vec::new()).unwrap();
    assert!(flags.is_empty());
    assert_eq!(opts.get("rate"), None);
}

#[test]
fn help_is_asked_for_anywhere() {
    assert!(wants_help(&args(&["--rate", "-h"])));
    assert!(wants_help(&args(&["--help"])));
    assert!(!wants_help(&args(&["--helper", "h"])));
    assert!(!wants_help(&Vec::new()));
}
