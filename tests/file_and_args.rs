use prime_sieve::cli::{command_for, limit_from_arg, Command, DEFAULT_LIMIT};
use prime_sieve::output::{primes_file_contents, push_decimal};
use prime_sieve::sieve::sieve;

fn args(words: &[&str]) -> Vec<String> {
    words.iter().map(|w| w.to_string()).collect()
}

#[test]
fn file_for_limit_ten_starts_with_extra_two() {
    let bytes = primes_file_contents(&sieve(10));
    assert_eq!(String::from_utf8(bytes).unwrap(), "2\n2\n3\n5\n7\n");
}

#[test]
fn file_for_no_primes_holds_only_two() {
    let bytes = primes_file_contents(&sieve(1));
    assert_eq!(bytes, b"2\n".to_vec());
}

#[test]
fn decimal_digits() {
    let mut out = b"x".to_vec();
    push_decimal(&mut out, 0);
    push_decimal(&mut out, 9);
    push_decimal(&mut out, 10);
    push_decimal(&mut out, 999_983);
    assert_eq!(out, b"x0910999983".to_vec());
    let mut big = Vec::new();
    push_decimal(&mut big, usize::MAX);
    assert_eq!(String::from_utf8(big).unwrap(), usize::MAX.to_string());
}

#[test]
fn limit_argument_parses_or_defaults() {
    assert_eq!(limit_from_arg("10"), 10);
    assert_eq!(limit_from_arg("+25"), 25);
    assert_eq!(limit_from_arg("0"), 0);
    assert_eq!(limit_from_arg("abc"), DEFAULT_LIMIT);
    assert_eq!(limit_from_arg(""), DEFAULT_LIMIT);
    assert_eq!(limit_from_arg("-5"), DEFAULT_LIMIT);
    assert_eq!(limit_from_arg(" 7"), DEFAULT_LIMIT);
    assert_eq!(limit_from_arg("99999999999999999999999"), DEFAULT_LIMIT);
    assert_eq!(DEFAULT_LIMIT, 1_000_000);
}

#[test]
fn no_limit_argument_asks_for_usage() {
    assert_eq!(command_for(&args(&[])), Command::Usage);
    assert_eq!(command_for(&args(&["primes"])), Command::Usage);
}

#[test]
fn benchmark_word_selects_timed_run() {
    assert_eq!(
        command_for(&args(&["primes", "50", "benchmark"])),
        Command::Benchmark { limit: 50 }
    );
    assert_eq!(
        command_for(&args(&["primes", "x", "benchmark"])),
        Command::Benchmark { limit: DEFAULT_LIMIT }
    );
}

#[test]
fn other_arguments_select_file_run() {
    assert_eq!(command_for(&args(&["primes", "10"])), Command::WriteFile { limit: 10 });
    assert_eq!(
        command_for(&args(&["primes", "10", "bench"])),
        Command::WriteFile { limit: 10 }
    );
    assert_eq!(
        command_for(&args(&["primes", "10", "benchmark", "extra"])),
        Command::Benchmark { limit: 10 }
    );
}
