//! Failure taxonomy of the copy loop and the mapping to process exit codes.
//!
//! Every failure is fatal: the program either succeeds completely or stops
//! immediately. Each distinct failure owns a distinct exit code, and each
//! diagnostic goes to the diagnostic stream, never into the forwarded data.

use vstd::prelude::*;
use vstd::string::StringExecFns;

verus! {

/// Exit code of a normal termination: end of input reached, or help shown.
pub const EXIT_OK: i32 = 0;

/// A fatal failure of the copy loop or of its startup sequence.
pub enum RunError {
    /// The terminal device could not be opened for writing.
    TerminalUnavailable,
    /// An I/O error while reading standard input.
    StdinRead,
    /// An I/O error while writing standard output.
    StdoutWrite,
    /// An I/O error while writing the terminal device.
    TerminalWrite,
}

impl RunError {
    /// The exit code of each failure: 2 when the terminal device cannot be
    /// opened, 3 for an error on standard input or standard output, 4 for an
    /// error writing the terminal device.
    pub open spec fn exit_code_spec(&self) -> int {
        match self {
            RunError::TerminalUnavailable => 2,
            RunError::StdinRead => 3,
            RunError::StdoutWrite => 3,
            RunError::TerminalWrite => 4,
        }
    }

    /// Maps this failure to its process exit code.
    pub fn exit_code(&self) -> (c: i32)
        ensures
            c as int == self.exit_code_spec(),
    {
        match self {
            RunError::TerminalUnavailable => 2,
            RunError::StdinRead => 3,
            RunError::StdoutWrite => 3,
            RunError::TerminalWrite => 4,
        }
    }

    /// The diagnostic for this failure: a fixed description of the failing
    /// operation and, for the stream errors, the operating-system detail
    /// after a colon.
    pub open spec fn diagnostic_spec(&self, detail: Seq<char>) -> Seq<char> {
        match self {
            RunError::TerminalUnavailable => "Unable to open /dev/tty."@,
            RunError::StdinRead => "I/O Error reading from stdin: "@ + detail,
            RunError::StdoutWrite => "I/O Error writing to stdout: "@ + detail,
            RunError::TerminalWrite => "I/O Error writing to tty: "@ + detail,
        }
    }

    /// Builds the diagnostic message for this failure. `detail` is the
    /// operating-system description of the underlying I/O error; it is
    /// ignored where the message is fixed.
    pub fn diagnostic(&self, detail: &str) -> (m: String)
        ensures
            m@ == self.diagnostic_spec(detail@),
    {
        match self {
            RunError::TerminalUnavailable => "Unable to open /dev/tty.".to_owned(),
            RunError::StdinRead => {
                let mut m = "I/O Error reading from stdin: ".to_owned();
                m.append(detail);
                m
            },
            RunError::StdoutWrite => {
                let mut m = "I/O Error writing to stdout: ".to_owned();
                m.append(detail);
                m
            },
            RunError::TerminalWrite => {
                let mut m = "I/O Error writing to tty: ".to_owned();
                m.append(detail);
                m
            },
        }
    }
}

} // verus!
