//! The text of the primes file: a line "2", then each prime on a line of its
//! own in decimal, each line ended by a newline.

use vstd::prelude::*;

verus! {

/// The decimal digits of `n` in ASCII, most significant first.
pub open spec fn decimal(n: nat) -> Seq<u8>
    decreases n,
{
    if n < 10 {
        seq![(48 + n) as u8]
    } else {
        decimal(n / 10).push((48 + n % 10) as u8)
    }
}

/// One line per number of `s`, in order.
pub open spec fn lines(s: Seq<usize>) -> Seq<u8>
    decreases s.len(),
{
    if s.len() == 0 {
        seq![]
    } else {
        lines(s.drop_last()) + decimal(s.last() as nat).push(10u8)
    }
}

/// The whole file for `primes`: the line "2" always comes first, whether or
/// not 2 is among `primes`.
pub open spec fn primes_file(primes: Seq<usize>) -> Seq<u8> {
    decimal(2).push(10u8) + lines(primes)
}

/// Appends the decimal digits of `n` to `out`.
pub fn push_decimal(out: &mut Vec<u8>, n: usize)
    ensures
        final(out)@ == old(out)@ + decimal(n as nat),
    decreases n,
{
    if n >= 10 {
        push_decimal(out, n / 10);
    }
    let digit: u8 = (n % 10) as u8;
    out.push(48 + digit);
    assert(out@ =~= old(out)@ + decimal(n as nat));
}

/// The bytes of the primes file for `primes`.
pub fn primes_file_contents(primes: &Vec<usize>) -> (r: Vec<u8>)
    ensures
        r@ == primes_file(primes@),
{
    let mut out: Vec<u8> = Vec::new();
    push_decimal(&mut out, 2);
    out.push(10);
    let mut i: usize = 0;
    while i < primes.len()
        invariant
            i <= primes@.len(),
            out@ == decimal(2).push(10u8) + lines(primes@.take(i as int)),
        decreases primes@.len() - i,
    {
        proof {
            assert(primes@.take(i + 1).drop_last() =~= primes@.take(i as int));
        }
        push_decimal(&mut out, primes[i]);
        out.push(10);
        assert(out@ =~= decimal(2).push(10u8) + lines(primes@.take(i + 1)));
        i = i + 1;
    }
    assert(primes@.take(primes@.len() as int) =~= primes@);
    out
}

} // verus!
