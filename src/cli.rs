//! What a command line asks for: the usage text, a timed run, or a run that
//! writes the primes file.

use vstd::prelude::*;

verus! {

/// The limit used when the limit argument is not a number.
pub const DEFAULT_LIMIT: usize = 1_000_000;

/// What to do for a command line.
#[derive(Clone, Copy, Debug, PartialEq, Eq, Structural)]
pub enum Command {
    /// Print how to call the program, and compute nothing.
    Usage,
    /// Sieve up to the limit and report the time taken; write no file.
    Benchmark { limit: usize },
    /// Sieve up to the limit and write the primes file.
    WriteFile { limit: usize },
}

/// The value of a string of decimal digits.
pub open spec fn digits_value(s: Seq<char>) -> int
    decreases s.len(),
{
    if s.len() == 0 {
        0
    } else {
        digits_value(s.drop_last()) * 10 + (s.last() as int - '0' as int)
    }
}

/// `s` is one or more ASCII digits.
pub open spec fn all_digits(s: Seq<char>) -> bool {
    s.len() > 0 && forall|i: int| 0 <= i < s.len() ==> '0' <= #[trigger] s[i] <= '9'
}

/// The `usize` that `s` spells: an optional `+`, then digits whose value fits.
pub open spec fn usize_text(s: Seq<char>) -> Option<int> {
    let d = if s.len() > 0 && s[0] == '+' {
        s.drop_first()
    } else {
        s
    };
    if all_digits(d) && digits_value(d) <= usize::MAX {
        Some(digits_value(d))
    } else {
        None
    }
}

/// The limit that an argument spells, or `DEFAULT_LIMIT` where it spells none.
pub open spec fn limit_of(arg: Seq<char>) -> usize {
    if let Some(n) = usize_text(arg) {
        n as usize
    } else {
        DEFAULT_LIMIT
    }
}

/// The argument after the limit is the word "benchmark".
pub open spec fn wants_benchmark(args: Seq<String>) -> bool {
    args.len() > 2 && args[2]@ == "benchmark"@
}

/// Relies on `str::parse::<usize>` (the `FromStr` of `usize`): it accepts an
/// optional `+` followed by one or more ASCII digits whose value fits in a
/// `usize`, and returns that value; any other text is an error.
#[verifier::external_body]
fn parse_usize(s: &str) -> (r: Option<usize>)
    ensures
        r matches Some(n) ==> usize_text(s@) == Some(n as int),
        r is None ==> usize_text(s@) is None,
{
    s.parse::<usize>().ok()
}

/// The limit that the argument `arg` asks for: its value where it is a
/// number, else `DEFAULT_LIMIT`.
pub fn limit_from_arg(arg: &str) -> (r: usize)
    ensures
        r == limit_of(arg@),
{
    match parse_usize(arg) {
        Some(n) => n,
        None => DEFAULT_LIMIT,
    }
}

/// The command for the arguments `args`, the program's name first: with no
/// limit argument, the usage text; with "benchmark" after the limit, a timed
/// run; else a run that writes the primes file.
pub fn command_for(args: &Vec<String>) -> (r: Command)
    ensures
        args@.len() < 2 ==> r == Command::Usage,
        args@.len() >= 2 && wants_benchmark(args@) ==> r == (Command::Benchmark {
            limit: limit_of(args@[1]@),
        }),
        args@.len() >= 2 && !wants_benchmark(args@) ==> r == (Command::WriteFile {
            limit: limit_of(args@[1]@),
        }),
{
    if args.len() < 2 {
        return Command::Usage;
    }
    let limit = limit_from_arg(args[1].as_str());
    let benchmark = "benchmark".to_owned();
    if args.len() > 2 && args[2] == benchmark {
        Command::Benchmark { limit }
    } else {
        Command::WriteFile { limit }
    }
}

} // verus!
