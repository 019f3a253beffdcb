//! What a prime is, and the ascending sequence of primes below a bound.

use vstd::arithmetic::div_mod::{lemma_fundamental_div_mod, lemma_mod_multiples_basic};
use vstd::prelude::*;

verus! {

/// `n` is at least 2 and no number in `2..n` divides it.
pub open spec fn is_prime(n: int) -> bool {
    n >= 2 && forall|d: int| 2 <= d < n ==> #[trigger] (n % d) != 0
}

/// The primes below `n`, in ascending order.
pub open spec fn primes_below(n: nat) -> Seq<int>
    decreases n,
{
    if n == 0 {
        seq![]
    } else if is_prime(n - 1) {
        primes_below((n - 1) as nat).push(n - 1)
    } else {
        primes_below((n - 1) as nat)
    }
}

/// `j` is at least 2 and has no divisor `d` with `2 <= d < b` and `d * d <= j`:
/// what remains of `j`'s flag once every base below `b` has been sieved.
pub open spec fn survives(j: int, b: int) -> bool {
    j >= 2 && forall|d: int| 2 <= d < b && d * d <= j ==> #[trigger] (j % d) != 0
}

/// Once the bases reach past the square root of `j`, surviving is being prime.
pub proof fn lemma_survives_past_root(j: int, b: int)
    requires
        0 <= j,
        0 <= b,
        j < b * b,
    ensures
        survives(j, b) == is_prime(j),
{
    if is_prime(j) {
        assert forall|d: int| 2 <= d < b && d * d <= j implies #[trigger] (j % d) != 0 by {
            assert(d < d * d) by (nonlinear_arith)
                requires
                    d >= 2,
            ;
        }
    }
    if survives(j, b) {
        assert forall|d: int| 2 <= d < j implies #[trigger] (j % d) != 0 by {
            if j % d == 0 {
                lemma_fundamental_div_mod(j, d);
                let e = j / d;
                assert(j == d * e);
                assert(e >= 2) by (nonlinear_arith)
                    requires
                        j == d * e,
                        2 <= d < j,
                ;
                let m = if d <= e { d } else { e };
                assert(m * m <= j) by (nonlinear_arith)
                    requires
                        j == d * e,
                        m == d || m == e,
                        m <= d,
                        m <= e,
                        m >= 2,
                ;
                assert(m < b) by (nonlinear_arith)
                    requires
                        m * m <= j,
                        j < b * b,
                        m >= 0,
                        b >= 0,
                ;
                if m == e {
                    lemma_mod_multiples_basic(d, e);
                    assert(d * e == e * d) by (nonlinear_arith);
                }
                assert(j % m == 0);
            }
        }
    }
}

/// Sieving with a prime base `i` removes exactly the odd multiples of `i`
/// from `i * i` on, from the numbers that survived the bases below it.
pub proof fn lemma_sieve_prime_base(j: int, i: int)
    requires
        i >= 3,
        survives(i, i),
    ensures
        survives(j, i + 1) == (survives(j, i) && !(i * i <= j && (j - i * i) % (2 * i) == 0)),
{
    assert(i % 2 != 0) by {
        if i >= 4 {
            assert(2 * 2 <= i);
        }
    }
    if survives(j, i) {
        if i * i <= j {
            assert(9 <= i * i) by (nonlinear_arith)
                requires
                    i >= 3,
            ;
            assert(2 * 2 <= j);
            assert(j % 2 != 0);
            if j % i == 0 {
                lemma_fundamental_div_mod(j, i);
                let m = j / i;
                assert(j == i * m);
                assert(m >= i) by (nonlinear_arith)
                    requires
                        j == i * m,
                        i * i <= j,
                        i >= 3,
                ;
                assert(m % 2 != 0) by {
                    if m % 2 == 0 {
                        lemma_fundamental_div_mod(m, 2);
                        let t = m / 2;
                        assert(j == (i * t) * 2) by (nonlinear_arith)
                            requires
                                j == i * m,
                                m == 2 * t,
                        ;
                        lemma_mod_multiples_basic(i * t, 2);
                    }
                }
                let k = (m - i) / 2;
                assert(m - i == 2 * k);
                assert(j - i * i == (2 * i) * k) by (nonlinear_arith)
                    requires
                        j == i * m,
                        m - i == 2 * k,
                ;
                lemma_mod_multiples_basic(k, 2 * i);
                assert((2 * i) * k == k * (2 * i)) by (nonlinear_arith);
            }
            if (j - i * i) % (2 * i) == 0 {
                lemma_fundamental_div_mod(j - i * i, 2 * i);
                let k = (j - i * i) / (2 * i);
                assert(j == (i + 2 * k) * i) by (nonlinear_arith)
                    requires
                        j - i * i == (2 * i) * k,
                ;
                lemma_mod_multiples_basic(i + 2 * k, i);
            }
        }
    }
    assert(survives(j, i + 1) ==> survives(j, i));
    assert(survives(j, i) && !(i * i <= j && j % i == 0) ==> survives(j, i + 1));
}

/// Sieving with a base `i` that did not survive the bases below it removes
/// nothing that had survived them.
pub proof fn lemma_sieve_composite_base(j: int, i: int)
    requires
        i >= 2,
        !survives(i, i),
    ensures
        survives(j, i + 1) == survives(j, i),
{
    if survives(j, i) && i * i <= j && j % i == 0 {
        let d = choose|d: int| 2 <= d < i && d * d <= i && #[trigger] (i % d) == 0;
        lemma_fundamental_div_mod(i, d);
        lemma_fundamental_div_mod(j, i);
        let a = i / d;
        let c = j / i;
        assert(j == d * (a * c)) by (nonlinear_arith)
            requires
                i == d * a,
                j == i * c,
        ;
        lemma_mod_multiples_basic(a * c, d);
        assert(d * (a * c) == (a * c) * d) by (nonlinear_arith);
        assert(d * d <= j) by (nonlinear_arith)
            requires
                d * d <= i,
                i * i <= j,
                i >= 2,
        ;
        assert(j % d != 0);
    }
}

} // verus!
