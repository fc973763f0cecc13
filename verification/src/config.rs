//! Resolving the command-line arguments into a validated configuration.
//!
//! The resolver consumes the argument list left to right. It recognizes the
//! help aliases (`--help`, `-h`, `-?`) and the buffer-size aliases
//! (`--buffer-size`, `-b`), the latter consuming exactly one following
//! argument that must be a positive decimal integer. Flags may repeat; the
//! last buffer-size occurrence wins. Anything else is a configuration error.

use vstd::prelude::*;
use vstd::string::StringExecFns;

verus! {

/// Default read-buffer size in bytes (2 MiB).
pub const BUF_SIZE_DEFAULT: usize = 2097152;

/// The usage text, shown on a help request or a configuration error. It is
/// written to the diagnostic stream only, never to standard output, so it
/// cannot contaminate piped data.
pub const USAGE: &'static str = "USAGE: foo | pt [options] | bar

pt: a simple, fast, no-dependencies UNIX utility to print the contents of stdin
to the terminal *and* forward them to stdout at the same time.

Options:

--help -h -?            Show this help message.

--buffer-size -b SIZE   Specify the buffer size in bytes. Using a larger buffer
                        size can improve throughput but also may increase
                        latency for individual batches of input, such as lines.
                        Default: 2097152 (i.e., 2MB)";

/// The resolved invocation configuration: the read-buffer size in bytes and
/// whether usage text was requested.
#[derive(Debug, Clone, Copy)]
pub struct Options {
    pub buf_size: usize,
    pub help: bool,
}

/// A fatal configuration error. Each variant carries the offending argument
/// where one exists, so the diagnostic can name it.
#[derive(Debug)]
pub enum ParseError {
    /// A buffer-size flag was the last argument, with no value after it.
    MissingBufferSizeValue,
    /// The value following a buffer-size flag is not a positive integer
    /// that fits in `usize`.
    InvalidBufferSizeValue(String),
    /// An argument that is none of the recognized flags.
    UnrecognizedFlag(String),
}

impl ParseError {
    /// The diagnostic for this error: one line naming the fault and, where
    /// one exists, the argument at fault, then a blank line and the usage
    /// text.
    pub open spec fn diagnostic_spec(&self) -> Seq<char> {
        match self {
            ParseError::MissingBufferSizeValue => "--buffer-size (-b) requires a value.\n\n"@
                + USAGE@,
            ParseError::InvalidBufferSizeValue(v) => "--buffer-size (-b) value must be an integer: "@
                + v@ + "\n\n"@ + USAGE@,
            ParseError::UnrecognizedFlag(f) => "Unrecognized flag: "@ + f@ + "\n\n"@ + USAGE@,
        }
    }

    /// Builds the diagnostic message for this error.
    pub fn diagnostic(&self) -> (m: String)
        ensures
            m@ == self.diagnostic_spec(),
    {
        match self {
            ParseError::MissingBufferSizeValue => {
                let mut m = "--buffer-size (-b) requires a value.\n\n".to_owned();
                m.append(USAGE);
                m
            },
            ParseError::InvalidBufferSizeValue(v) => {
                let mut m = "--buffer-size (-b) value must be an integer: ".to_owned();
                m.append(v.as_str());
                m.append("\n\n");
                m.append(USAGE);
                m
            },
            ParseError::UnrecognizedFlag(f) => {
                let mut m = "Unrecognized flag: ".to_owned();
                m.append(f.as_str());
                m.append("\n\n");
                m.append(USAGE);
                m
            },
        }
    }

    /// A configuration error always terminates the process with exit code 1.
    pub fn exit_code(&self) -> (c: i32)
        ensures
            c == 1,
    {
        1
    }
}

/// What resolving an argument list yields: a finished configuration or one
/// of the three configuration errors, with the argument at fault.
pub enum Resolution {
    Done { buf_size: int, help: bool },
    MissingValue,
    BadValue(Seq<char>),
    UnknownFlag(Seq<char>),
}

/// The argument is a help alias.
pub open spec fn is_help_flag(a: Seq<char>) -> bool {
    a == "--help"@ || a == "-h"@ || a == "-?"@
}

/// The argument is a buffer-size alias.
pub open spec fn is_size_flag(a: Seq<char>) -> bool {
    a == "--buffer-size"@ || a == "-b"@
}

/// The views of an argument list.
pub open spec fn views_of(args: Seq<String>) -> Seq<Seq<char>> {
    args.map_values(|s: String| s@)
}

/// Left-to-right resolution of the remaining arguments on top of the
/// settings accumulated so far. A later buffer-size value overwrites an
/// earlier one, so the last occurrence wins; the first unusable argument
/// stops resolution with an error.
pub open spec fn resolve_from(args: Seq<Seq<char>>, buf_size: int, help: bool) -> Resolution
    decreases args.len(),
{
    if args.len() == 0 {
        Resolution::Done { buf_size, help }
    } else if is_help_flag(args[0]) {
        resolve_from(args.skip(1), buf_size, true)
    } else if is_size_flag(args[0]) {
        if args.len() == 1 {
            Resolution::MissingValue
        } else if is_valid_buffer_size(args[1]) {
            resolve_from(args.skip(2), decimal_value(args[1]), help)
        } else {
            Resolution::BadValue(args[1])
        }
    } else {
        Resolution::UnknownFlag(args[0])
    }
}

/// Resolution of a full argument list, starting from the defaults.
pub open spec fn resolve(args: Seq<Seq<char>>) -> Resolution {
    resolve_from(args, BUF_SIZE_DEFAULT as int, false)
}

/// A character is a decimal digit.
pub open spec fn is_decimal_digit(c: char) -> bool {
    48 <= c as int <= 57
}

/// The numeric value of a decimal digit character.
pub open spec fn digit_value(c: char) -> int {
    c as int - 48
}

/// Every character of the sequence is a decimal digit.
pub open spec fn all_digits(s: Seq<char>) -> bool {
    forall|i: int| 0 <= i < s.len() ==> is_decimal_digit(#[trigger] s[i])
}

/// The value of a digit sequence read as a base-10 numeral.
pub open spec fn decimal_value(s: Seq<char>) -> int
    decreases s.len(),
{
    if s.len() == 0 {
        0
    } else {
        decimal_value(s.drop_last()) * 10 + digit_value(s.last())
    }
}

/// The string is a well-formed decimal numeral whose value fits in `usize`.
pub open spec fn is_valid_decimal(s: Seq<char>) -> bool {
    s.len() > 0 && all_digits(s) && decimal_value(s) <= usize::MAX
}

/// The string is acceptable as a buffer size: a decimal numeral, in range,
/// and positive (a zero-byte buffer could make no forward progress).
pub open spec fn is_valid_buffer_size(s: Seq<char>) -> bool {
    is_valid_decimal(s) && decimal_value(s) >= 1
}

/// The value of a numeral is never negative.
proof fn lemma_decimal_value_nonneg(s: Seq<char>)
    requires
        all_digits(s),
    ensures
        decimal_value(s) >= 0,
    decreases s.len(),
{
    if s.len() > 0 {
        assert(all_digits(s.drop_last()));
        lemma_decimal_value_nonneg(s.drop_last());
    }
}

/// Extending a numeral by one digit multiplies its value by ten and adds the
/// digit: the recursion of `decimal_value` read on a prefix.
proof fn lemma_decimal_value_step(s: Seq<char>, i: int)
    requires
        0 <= i < s.len(),
    ensures
        decimal_value(s.take(i + 1)) == decimal_value(s.take(i)) * 10 + digit_value(s[i]),
{
    assert(s.take(i + 1).drop_last() =~= s.take(i));
    assert(s.take(i + 1).last() == s[i]);
}

/// A numeral's value never shrinks as more digits are appended.
proof fn lemma_decimal_value_prefix_le(s: Seq<char>, i: int)
    requires
        all_digits(s),
        0 <= i <= s.len(),
    ensures
        decimal_value(s.take(i)) <= decimal_value(s),
    decreases s.len() - i,
{
    if i == s.len() {
        assert(s.take(i) =~= s);
    } else {
        assert(all_digits(s.take(i)));
        lemma_decimal_value_nonneg(s.take(i));
        lemma_decimal_value_step(s, i);
        lemma_decimal_value_prefix_le(s, i + 1);
    }
}

/// Parses a decimal numeral, rejecting empty strings, non-digit characters,
/// and values that do not fit in `usize`.
pub fn parse_decimal(s: &str) -> (r: Option<usize>)
    ensures
        match r {
            Some(n) => is_valid_decimal(s@) && n as int == decimal_value(s@),
            None => !is_valid_decimal(s@),
        },
{
    let len = s.unicode_len();
    if len == 0 {
        return None;
    }
    let mut acc: usize = 0;
    let mut i: usize = 0;
    while i < len
        invariant
            0 <= i <= len,
            len == s@.len(),
            all_digits(s@.take(i as int)),
            acc as int == decimal_value(s@.take(i as int)),
        decreases len - i,
    {
        let c = s.get_char(i);
        let cv = c as u32;
        if cv < 48 || cv > 57 {
            assert(!is_decimal_digit(s@[i as int]));
            return None;
        }
        let d = (cv - 48) as usize;
        proof {
            lemma_decimal_value_step(s@, i as int);
        }
        if acc > (usize::MAX - d) / 10 {
            proof {
                assert(all_digits(s@.take(i as int + 1)));
                if all_digits(s@) {
                    lemma_decimal_value_prefix_le(s@, i as int + 1);
                    assert(decimal_value(s@) > usize::MAX);
                }
            }
            return None;
        }
        acc = acc * 10 + d;
        i = i + 1;
    }
    proof {
        assert(s@.take(len as int) =~= s@);
    }
    Some(acc)
}

impl Options {
    /// Resolves the argument list (program name excluded) into a
    /// configuration, or reports the first configuration error, exactly as
    /// the `resolve` specification says.
    pub fn parse(args: &Vec<String>) -> (r: Result<Options, ParseError>)
        ensures
            match r {
                Ok(o) => resolve(views_of(args@)) == (Resolution::Done {
                    buf_size: o.buf_size as int,
                    help: o.help,
                }),
                Err(ParseError::MissingBufferSizeValue) => resolve(views_of(args@))
                    == Resolution::MissingValue,
                Err(ParseError::InvalidBufferSizeValue(v)) => resolve(views_of(args@))
                    == Resolution::BadValue(v@),
                Err(ParseError::UnrecognizedFlag(f)) => resolve(views_of(args@))
                    == Resolution::UnknownFlag(f@),
            },
    {
        let ghost all: Seq<Seq<char>> = views_of(args@);
        let help_long = "--help".to_owned();
        let help_short = "-h".to_owned();
        let help_alt = "-?".to_owned();
        let size_long = "--buffer-size".to_owned();
        let size_short = "-b".to_owned();
        let mut buf_size: usize = BUF_SIZE_DEFAULT;
        let mut help: bool = false;
        let mut i: usize = 0;
        proof {
            assert(all.skip(0) =~= all);
        }
        while i < args.len()
            invariant
                i <= args.len(),
                all == views_of(args@),
                all.len() == args.len(),
                resolve(all) == resolve_from(all.skip(i as int), buf_size as int, help),
                help_long@ == "--help"@,
                help_short@ == "-h"@,
                help_alt@ == "-?"@,
                size_long@ == "--buffer-size"@,
                size_short@ == "-b"@,
            decreases args.len() - i,
        {
            let a = &args[i];
            proof {
                assert(all.skip(i as int)[0] == a@);
            }
            if *a == help_long || *a == help_short || *a == help_alt {
                help = true;
                proof {
                    assert(all.skip(i as int).skip(1) =~= all.skip(i as int + 1));
                }
                i = i + 1;
            } else if *a == size_long || *a == size_short {
                if i + 1 == args.len() {
                    return Err(ParseError::MissingBufferSizeValue);
                }
                let v = &args[i + 1];
                proof {
                    assert(all.skip(i as int)[1] == v@);
                }
                match parse_decimal(v.as_str()) {
                    Some(n) => {
                        if n == 0 {
                            return Err(ParseError::InvalidBufferSizeValue(v.clone()));
                        }
                        buf_size = n;
                        proof {
                            assert(all.skip(i as int).skip(2) =~= all.skip(i as int + 2));
                        }
                        i = i + 2;
                    },
                    None => {
                        return Err(ParseError::InvalidBufferSizeValue(v.clone()));
                    },
                }
            } else {
                return Err(ParseError::UnrecognizedFlag(a.clone()));
            }
        }
        proof {
            assert(all.skip(i as int) =~= Seq::<Seq<char>>::empty());
        }
        Ok(Options { buf_size, help })
    }
}

} // verus!
