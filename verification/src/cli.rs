//! The commands of the command line interface and the status each run ends
//! with.
use crate::chars::{is_white_space, white_space};
use crate::text::chars_of;
use crate::token::spells;
use vstd::prelude::*;

verus! {

/// The command line: one command.
#[derive(Debug, Clone, PartialEq, Eq)]
pub struct Cli {
    pub command: Command,
}

/// What the command line asks for.
#[derive(Debug, Clone, PartialEq, Eq)]
pub enum Command {
    /// Tokenize a source code file and print the list of tokens.
    Tokenize { source: String },
    /// Parse a source code file and print the syntax tree.
    Parse { source: String },
    /// Interpret the program in a source code file.
    Interpret { source: String },
    /// Start the read-eval-print loop.
    Repl,
}

/// How a run of the command line ends.
#[derive(Debug, Clone, Copy, PartialEq, Eq, Structural)]
pub enum CliStatus {
    /// The command completed successfully.
    Success,
    /// The source file cannot be read.
    CannotReadSourceFile,
    /// Writing an output file failed.
    CannotWriteOutputFile,
    /// The command line was used incorrectly.
    InvalidArgument,
    /// The program failed while it ran.
    RuntimeError,
    /// The source code holds a syntax error.
    SyntaxError,
    /// An unrecoverable error of the system itself.
    SystemError,
}

/// The exit code of each status, after the conventions of `sysexits.h`.
pub open spec fn spec_exit_code(status: CliStatus) -> u8 {
    match status {
        CliStatus::Success => 0,
        CliStatus::CannotReadSourceFile => 66,
        CliStatus::CannotWriteOutputFile => 73,
        CliStatus::InvalidArgument => 64,
        CliStatus::RuntimeError => 65,
        CliStatus::SyntaxError => 65,
        CliStatus::SystemError => 70,
    }
}

impl CliStatus {
    /// The exit code of the process that ends with this status.
    pub fn code(self) -> (code: u8)
        ensures
            code == spec_exit_code(self),
    {
        match self {
            CliStatus::Success => 0,
            CliStatus::CannotReadSourceFile => 66,
            CliStatus::CannotWriteOutputFile => 73,
            CliStatus::InvalidArgument => 64,
            CliStatus::RuntimeError | CliStatus::SyntaxError => 65,
            CliStatus::SystemError => 70,
        }
    }
}

/// What the read-eval-print loop does with a line it read.
#[derive(Debug, Clone, Copy, PartialEq, Eq, Structural)]
pub enum ReplInput {
    /// Leave the loop.
    Quit,
    /// Start again with a fresh interpreter.
    Clear,
    /// Read the next line.
    Skip,
    /// Run the line as a program.
    Evaluate,
}

/// What the text `line`, which reads `trimmed` without the white space
/// around it, asks of the loop: the commands `:quit` and `:clear` stand
/// alone on their line, nothing read means nothing to do, and anything else
/// is a program.
pub open spec fn spec_repl_input(line: Seq<char>, trimmed: Seq<char>) -> ReplInput {
    if trimmed == ":quit"@ {
        ReplInput::Quit
    } else if trimmed == ":clear"@ {
        ReplInput::Clear
    } else if line.len() == 0 {
        ReplInput::Skip
    } else {
        ReplInput::Evaluate
    }
}

/// The position of the first character at or after `i` that is no white
/// space.
pub open spec fn trim_start(s: Seq<char>, i: int) -> int
    decreases s.len() - i,
{
    if 0 <= i < s.len() && is_white_space(s[i]) {
        trim_start(s, i + 1)
    } else {
        i
    }
}

/// The position just after the last character before `j` that is no white
/// space.
pub open spec fn trim_end(s: Seq<char>, j: int) -> int
    decreases j,
{
    if 0 < j <= s.len() && is_white_space(s[j - 1]) {
        trim_end(s, j - 1)
    } else {
        j
    }
}

/// A text without the white space around it, white space as Unicode's
/// `White_Space` property defines it, as `str::trim` removes it.
pub open spec fn spec_trim(s: Seq<char>) -> Seq<char> {
    let a = trim_start(s, 0);
    let b = trim_end(s, s.len() as int);
    if a < b {
        s.subrange(a, b)
    } else {
        Seq::empty()
    }
}

/// The positions between which the characters of `chars` stand without the
/// white space around them; `(0, 0)` when they are all white space.
fn trimmed_range(chars: &Vec<char>) -> (r: (usize, usize))
    ensures
        r.0 <= r.1 <= chars@.len(),
        chars@.subrange(r.0 as int, r.1 as int) == spec_trim(chars@),
{
    let n = chars.len();
    let mut a: usize = 0;
    while a < n && white_space(chars[a])
        invariant
            n == chars@.len(),
            a <= n,
            trim_start(chars@, a as int) == trim_start(chars@, 0),
        decreases n - a,
    {
        a = a + 1;
    }
    let mut b: usize = n;
    while b > 0 && white_space(chars[b - 1])
        invariant
            n == chars@.len(),
            b <= n,
            trim_end(chars@, b as int) == trim_end(chars@, n as int),
        decreases b,
    {
        b = b - 1;
    }
    assert(trim_start(chars@, a as int) == a);
    assert(trim_end(chars@, b as int) == b);
    if a < b {
        (a, b)
    } else {
        assert(chars@.subrange(0, 0) =~= Seq::<char>::empty());
        (0, 0)
    }
}

/// Decides what the loop does with the line it read.
pub fn repl_input(line: &str) -> (input: ReplInput)
    ensures
        input == spec_repl_input(line@, spec_trim(line@)),
{
    let chars = chars_of(line);
    let (a, b) = trimmed_range(&chars);
    if spells(&chars, a, b, ":quit") {
        ReplInput::Quit
    } else if spells(&chars, a, b, ":clear") {
        ReplInput::Clear
    } else if chars.len() == 0 {
        ReplInput::Skip
    } else {
        ReplInput::Evaluate
    }
}

/// Only a successful run exits with code zero.
pub proof fn law_only_success_exits_with_zero(status: CliStatus)
    ensures
        spec_exit_code(status) == 0 <==> status == CliStatus::Success,
{
}

} // verus!
