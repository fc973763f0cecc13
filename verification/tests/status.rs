use pt::status::{RunError, EXIT_OK};

#[test]
fn exit_codes_are_distinct_per_failure() {
    assert_eq!(EXIT_OK, 0);
    assert_eq!(RunError::TerminalUnavailable.exit_code(), 2);
    assert_eq!(RunError::StdinRead.exit_code(), 3);
    assert_eq!(RunError::StdoutWrite.exit_code(), 3);
    assert_eq!(RunError::TerminalWrite.exit_code(), 4);
}

#[test]
fn terminal_unavailable_diagnostic_is_fixed() {
    let m = RunError::TerminalUnavailable.diagnostic("ignored");
    assert_eq!(m, "Unable to open /dev/tty.");
}

#[test]
fn stream_error_diagnostics_carry_the_detail() {
    let m = RunError::StdinRead.diagnostic("broken pipe");
    assert_eq!(m, "I/O Error reading from stdin: broken pipe");
    let m = RunError::StdoutWrite.diagnostic("no space");
    assert_eq!(m, "I/O Error writing to stdout: no space");
    let m = RunError::TerminalWrite.diagnostic("gone");
    assert_eq!(m, "I/O Error writing to tty: gone");
}
