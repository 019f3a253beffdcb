//! Facts about the results of `sieve` across calls.

use crate::flags::as_ints;
use crate::primes::primes_below;
use vstd::prelude::*;

verus! {

/// The numbers at most `m`.
pub open spec fn at_most(m: int) -> spec_fn(int) -> bool {
    |p: int| p <= m
}

/// Two results that `sieve` may return for one limit are the same sequence:
/// the result depends on the limit alone, not on how many threads ran the
/// marking passes nor on the order of their writes.
pub proof fn lemma_sieve_deterministic(limit: nat, a: Seq<usize>, b: Seq<usize>)
    requires
        as_ints(a) == primes_below(limit + 1),
        as_ints(b) == primes_below(limit + 1),
    ensures
        a == b,
{
    assert(as_ints(a).len() == a.len() && as_ints(b).len() == b.len());
    assert forall|i: int| 0 <= i < a.len() implies a[i] == b[i] by {
        assert(as_ints(a)[i] == a[i] as int);
        assert(as_ints(b)[i] == b[i] as int);
    }
    assert(a =~= b);
}

/// Every prime below `n` is at most `m` when `n <= m + 1`: keeping those at
/// most `m` keeps them all.
proof fn lemma_below_all_kept(m: nat, n: nat)
    requires
        n <= m + 1,
    ensures
        primes_below(n).filter(at_most(m as int)) == primes_below(n),
    decreases n,
{
    reveal(Seq::filter);
    if n > 0 {
        let s = primes_below(n);
        let t = primes_below((n - 1) as nat);
        lemma_below_all_kept(m, (n - 1) as nat);
        if s.len() > t.len() {
            assert(s.drop_last() =~= t);
        }
    }
}

/// The result of `sieve` for a limit `n`, cut to the numbers at most a
/// smaller limit `m`, is the result of `sieve` for `m`.
pub proof fn lemma_sieve_prefix(m: nat, n: nat)
    requires
        m < n,
    ensures
        primes_below(n + 1).filter(at_most(m as int)) == primes_below(m + 1),
    decreases n,
{
    reveal(Seq::filter);
    let s = primes_below(n + 1);
    let t = primes_below(n);
    if n == m + 1 {
        lemma_below_all_kept(m, n);
    } else {
        lemma_sieve_prefix(m, (n - 1) as nat);
    }
    if s.len() > t.len() {
        assert(s.drop_last() =~= t);
        assert(!at_most(m as int)(s.last()));
    }
}

} // verus!
