use prime_sieve::sieve::{isqrt, sieve};

fn trial_division_primes(n: usize) -> Vec<usize> {
    let mut out = Vec::new();
    for k in 2..=n {
        let mut d = 2;
        let mut prime = true;
        while d < k {
            if k % d == 0 {
                prime = false;
                break;
            }
            d += 1;
        }
        if prime {
            out.push(k);
        }
    }
    out
}

#[test]
fn small_limits_give_known_primes() {
    assert_eq!(sieve(0), Vec::<usize>::new());
    assert_eq!(sieve(1), Vec::<usize>::new());
    assert_eq!(sieve(2), vec![2]);
    assert_eq!(sieve(10), vec![2, 3, 5, 7]);
    assert_eq!(sieve(30), vec![2, 3, 5, 7, 11, 13, 17, 19, 23, 29]);
}

#[test]
fn matches_trial_division_up_to_two_thousand() {
    for n in 0..=2000 {
        assert_eq!(sieve(n), trial_division_primes(n), "limit {}", n);
    }
}

#[test]
fn limits_at_squares_of_primes() {
    for n in [3, 4, 8, 9, 24, 25, 26, 48, 49, 120, 121, 168, 169, 170] {
        assert_eq!(sieve(n), trial_division_primes(n), "limit {}", n);
    }
}

#[test]
fn count_below_one_million() {
    let primes = sieve(1_000_000);
    assert_eq!(primes.len(), 78_498);
    assert_eq!(primes[0], 2);
    assert_eq!(*primes.last().unwrap(), 999_983);
}

#[test]
fn repeated_calls_agree() {
    let first = sieve(10_000);
    for _ in 0..5 {
        assert_eq!(sieve(10_000), first);
    }
}

#[test]
fn prefix_of_larger_limit_is_smaller_result() {
    let big = sieve(500);
    for m in 0..500 {
        let cut: Vec<usize> = big.iter().copied().filter(|p| *p <= m).collect();
        assert_eq!(cut, sieve(m), "m {}", m);
    }
}

#[test]
fn integer_square_roots() {
    assert_eq!(isqrt(0), 0);
    assert_eq!(isqrt(1), 1);
    assert_eq!(isqrt(3), 1);
    assert_eq!(isqrt(4), 2);
    assert_eq!(isqrt(99), 9);
    assert_eq!(isqrt(100), 10);
    assert_eq!(isqrt(1_000_000), 1000);
    assert_eq!(isqrt(usize::MAX), (1usize << (usize::BITS / 2)) - 1);
}

#[test]
fn worker_count_does_not_change_result() {
    let one = rayon::ThreadPoolBuilder::new().num_threads(1).build().unwrap();
    let many = rayon::ThreadPoolBuilder::new().num_threads(8).build().unwrap();
    for n in [0, 1, 2, 97, 1000, 65_536] {
        let a = one.install(|| sieve(n));
        let b = many.install(|| sieve(n));
        assert_eq!(a, b, "limit {}", n);
        assert_eq!(a, sieve(n), "limit {}", n);
    }
}
