use pt::config::{parse_decimal, Options, ParseError, BUF_SIZE_DEFAULT, USAGE};

fn args(xs: &[&str]) -> Vec<String> {
    xs.iter().map(|s| s.to_string()).collect()
}

#[test]
fn no_args_gives_defaults() {
    let r = Options::parse(&args(&[])).unwrap();
    assert_eq!(r.buf_size, 2097152);
    assert_eq!(r.buf_size, BUF_SIZE_DEFAULT);
    assert!(!r.help);
}

#[test]
fn help_aliases_set_help() {
    for flag in ["--help", "-h", "-?"] {
        let r = Options::parse(&args(&[flag])).unwrap();
        assert!(r.help);
        assert_eq!(r.buf_size, BUF_SIZE_DEFAULT);
    }
}

#[test]
fn buffer_size_long_flag() {
    let r = Options::parse(&args(&["--buffer-size", "42"])).unwrap();
    assert_eq!(r.buf_size, 42);
    assert!(!r.help);
}

#[test]
fn buffer_size_short_flag() {
    let r = Options::parse(&args(&["-b", "65536"])).unwrap();
    assert_eq!(r.buf_size, 65536);
}

#[test]
fn last_buffer_size_wins() {
    let r = Options::parse(&args(&["-b", "1", "--buffer-size", "2", "-b", "3"])).unwrap();
    assert_eq!(r.buf_size, 3);
}

#[test]
fn flags_combine_in_any_order() {
    let r = Options::parse(&args(&["-b", "10", "-h"])).unwrap();
    assert!(r.help);
    assert_eq!(r.buf_size, 10);

    let r = Options::parse(&args(&["--help", "--buffer-size", "10"])).unwrap();
    assert!(r.help);
    assert_eq!(r.buf_size, 10);
}

#[test]
fn non_integer_value_is_an_error() {
    let e = Options::parse(&args(&["--buffer-size", "abc"])).unwrap_err();
    match &e {
        ParseError::InvalidBufferSizeValue(v) => assert_eq!(v, "abc"),
        _ => panic!("wrong error variant"),
    }
    assert_eq!(e.exit_code(), 1);
    let m = e.diagnostic();
    assert!(m.contains("must be an integer"));
    assert!(m.contains(USAGE));
}

#[test]
fn missing_value_is_an_error() {
    let e = Options::parse(&args(&["--buffer-size"])).unwrap_err();
    assert!(matches!(e, ParseError::MissingBufferSizeValue));
    assert_eq!(e.exit_code(), 1);
    let m = e.diagnostic();
    assert!(m.contains("requires a value"));
    assert!(m.contains(USAGE));

    let e = Options::parse(&args(&["-b"])).unwrap_err();
    assert!(matches!(e, ParseError::MissingBufferSizeValue));
}

#[test]
fn unrecognized_flag_is_an_error() {
    let e = Options::parse(&args(&["--bogus"])).unwrap_err();
    match &e {
        ParseError::UnrecognizedFlag(f) => assert_eq!(f, "--bogus"),
        _ => panic!("wrong error variant"),
    }
    assert_eq!(e.exit_code(), 1);
    let m = e.diagnostic();
    assert!(m.contains("--bogus"));
    assert!(m.contains(USAGE));
}

#[test]
fn error_before_later_flags_stops_parsing() {
    let e = Options::parse(&args(&["--bogus", "--help"])).unwrap_err();
    assert!(matches!(e, ParseError::UnrecognizedFlag(_)));
}

#[test]
fn zero_buffer_size_is_rejected() {
    let e = Options::parse(&args(&["-b", "0"])).unwrap_err();
    assert!(matches!(e, ParseError::InvalidBufferSizeValue(_)));
}

#[test]
fn overflowing_buffer_size_is_rejected() {
    let e = Options::parse(&args(&["-b", "99999999999999999999999"])).unwrap_err();
    assert!(matches!(e, ParseError::InvalidBufferSizeValue(_)));
}

#[test]
fn decimal_parsing_exact_values() {
    assert_eq!(parse_decimal("42"), Some(42));
    assert_eq!(parse_decimal("0"), Some(0));
    assert_eq!(parse_decimal("007"), Some(7));
    assert_eq!(parse_decimal("18446744073709551615"), Some(usize::MAX));
    assert_eq!(parse_decimal("18446744073709551616"), None);
    assert_eq!(parse_decimal(""), None);
    assert_eq!(parse_decimal("12a"), None);
    assert_eq!(parse_decimal("-1"), None);
    assert_eq!(parse_decimal("+1"), None);
    assert_eq!(parse_decimal(" 1"), None);
}

#[test]
fn usage_text_names_the_flags() {
    assert!(USAGE.contains("--help"));
    assert!(USAGE.contains("--buffer-size"));
    assert!(USAGE.contains("2097152"));
}
