//! The sieve controller: clears the even numbers above 2, then the odd
//! multiples of every base up to the square root, then reads off the primes.

use crate::flags::{as_ints, set_indices, FlagArray};
use crate::primes::{
    is_prime, lemma_sieve_composite_base, lemma_sieve_prime_base, lemma_survives_past_root,
    primes_below, survives,
};
use vstd::arithmetic::div_mod::lemma_fundamental_div_mod;
use vstd::prelude::*;

verus! {

/// The largest `r` with `r * r <= n`.
pub fn isqrt(n: usize) -> (r: usize)
    ensures
        r * r <= n,
        n < (r + 1) * (r + 1),
{
    let mut r: usize = 0;
    loop
        invariant
            r * r <= n,
        decreases n - r,
    {
        assert(r <= n) by (nonlinear_arith)
            requires
                r * r <= n,
                r >= 0,
        ;
        assert(r + 1 <= usize::MAX) by (nonlinear_arith)
            requires
                r * r <= n,
                n <= usize::MAX,
                r >= 0,
        ;
        let next: usize = r + 1;
        proof {
            lemma_fundamental_div_mod(n as int, next as int);
        }
        if next > n / next {
            assert(n < next * next) by (nonlinear_arith)
                requires
                    n == next * (n / next) + n % next,
                    n % next < next,
                    n / next < next,
                    next > 0,
            ;
            return r;
        }
        assert(next * next <= n) by (nonlinear_arith)
            requires
                n == next * (n / next) + n % next,
                n % next >= 0,
                next <= n / next,
                next > 0,
        ;
        r = next;
    }
}

/// The set indices of flags that are set exactly at the primes are the primes.
proof fn lemma_prime_flags(s: Seq<bool>)
    requires
        forall|i: int| 0 <= i < s.len() ==> #[trigger] s[i] == is_prime(i),
    ensures
        set_indices(s) == primes_below(s.len()),
    decreases s.len(),
{
    if s.len() > 0 {
        let t = s.drop_last();
        assert forall|i: int| 0 <= i < t.len() implies #[trigger] t[i] == is_prime(i) by {
            assert(t[i] == s[i]);
        }
        lemma_prime_flags(t);
    }
}

/// The primes up to `limit`, in ascending order.
///
/// Every even number above 2 is cleared in one parallel pass. Then each base
/// `i` from 3 to the square root of `limit` whose flag is still set clears, in
/// a parallel pass, the odd multiples of `i` from `i * i` on: smaller multiples
/// were cleared by smaller bases and even ones by the first pass. What remains
/// set is read off in ascending order.
pub fn sieve(limit: usize) -> (r: Vec<usize>)
    requires
        limit < usize::MAX,
    ensures
        as_ints(r@) == primes_below((limit + 1) as nat),
{
    let mut flags = FlagArray::create(limit);
    flags.clear_progression(4, 2);
    assert forall|j: int| 0 <= j <= limit implies #[trigger] flags@[j] == survives(j, 3) by {
        if j >= 4 {
            assert((j - 4) % 2 == 0 <==> j % 2 == 0);
            assert(2 * 2 <= j);
        }
    }
    let root = isqrt(limit);
    let mut i: usize = 3;
    while i <= root
        invariant
            3 <= i,
            root * root <= limit,
            limit < (root + 1) * (root + 1),
            limit < usize::MAX,
            flags@.len() == limit + 1,
            forall|j: int| 0 <= j <= limit ==> #[trigger] flags@[j] == survives(j, i as int),
        decreases root + 1 - i,
    {
        assert(i * i <= limit) by (nonlinear_arith)
            requires
                i <= root,
                root * root <= limit,
                i >= 0,
        ;
        assert(2 * i <= limit) by (nonlinear_arith)
            requires
                i * i <= limit,
                i >= 3,
        ;
        if flags.read(i) {
            let start: usize = i * i;
            let step: usize = 2 * i;
            flags.clear_progression(start, step);
            assert forall|j: int| 0 <= j <= limit implies #[trigger] flags@[j] == survives(
                j,
                i + 1,
            ) by {
                lemma_sieve_prime_base(j, i as int);
            }
        } else {
            assert forall|j: int| 0 <= j <= limit implies #[trigger] flags@[j] == survives(
                j,
                i + 1,
            ) by {
                lemma_sieve_composite_base(j, i as int);
            }
        }
        i = i + 1;
    }
    assert(limit < i * i) by (nonlinear_arith)
        requires
            limit < (root + 1) * (root + 1),
            i >= root + 1,
            root >= 0,
    ;
    assert forall|j: int| 0 <= j <= limit implies #[trigger] flags@[j] == is_prime(j) by {
        lemma_survives_past_root(j, i as int);
    }
    proof {
        lemma_prime_flags(flags@);
    }
    flags.into_sequence()
}

} // verus!
