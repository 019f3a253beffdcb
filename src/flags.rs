//! The flag array: one flag per candidate, where a set flag means "not yet
//! shown to be composite". Flags only ever go from set to clear.

use rayon::iter::{IndexedParallelIterator, IntoParallelRefMutIterator, ParallelIterator};
use vstd::prelude::*;

verus! {

/// Whether `j` is one of `start`, `start + step`, `start + 2 * step`, ...
pub open spec fn on_progression(j: int, start: int, step: int) -> bool {
    start <= j && (j - start) % step == 0
}

/// No flag that is clear in `before` is set in `after`.
pub open spec fn never_raised(before: Seq<bool>, after: Seq<bool>) -> bool {
    &&& after.len() == before.len()
    &&& forall|i: int| 0 <= i < after.len() && #[trigger] after[i] ==> before[i]
}

/// A sequence of machine integers read as mathematical integers.
pub open spec fn as_ints(s: Seq<usize>) -> Seq<int> {
    s.map_values(|x: usize| x as int)
}

/// The indices of the set flags of `s`, in ascending order.
pub open spec fn set_indices(s: Seq<bool>) -> Seq<int>
    decreases s.len(),
{
    if s.len() == 0 {
        seq![]
    } else if s.last() {
        set_indices(s.drop_last()).push(s.len() - 1)
    } else {
        set_indices(s.drop_last())
    }
}

/// Relies on rayon's `par_iter_mut`, `skip`, `step_by` and `for_each`: the
/// closure runs once on each element at `start`, `start + step`, ... below the
/// length (`skip` stops at the length), on the thread pool, and nothing else
/// is touched. `step_by` needs a step above zero.
#[verifier::external_body]
fn par_clear_progression(flags: &mut Vec<bool>, start: usize, step: usize)
    requires
        step > 0,
    ensures
        final(flags)@.len() == old(flags)@.len(),
        forall|j: int|
            0 <= j < final(flags)@.len() ==> #[trigger] final(flags)@[j] == (old(flags)@[j]
                && !on_progression(j, start as int, step as int)),
{
    flags.par_iter_mut().skip(start).step_by(step).for_each(|f| *f = false);
}

/// One flag for each of the numbers `0..=n`.
pub struct FlagArray {
    flags: Vec<bool>,
}

impl View for FlagArray {
    type V = Seq<bool>;

    closed spec fn view(&self) -> Seq<bool> {
        self.flags@
    }
}

impl FlagArray {
    /// Flags for `0..=n`: those of 0 and 1 clear, all others set.
    pub fn create(n: usize) -> (r: FlagArray)
        requires
            n < usize::MAX,
        ensures
            r@.len() == n + 1,
            forall|i: int| 0 <= i <= n ==> #[trigger] r@[i] == (i >= 2),
    {
        let mut flags: Vec<bool> = Vec::with_capacity(n + 1);
        let mut i: usize = 0;
        while i <= n
            invariant
                i <= n + 1,
                n < usize::MAX,
                flags@.len() == i,
                forall|k: int| 0 <= k < i ==> #[trigger] flags@[k] == (k >= 2),
            decreases n + 1 - i,
        {
            flags.push(i >= 2);
            i = i + 1;
        }
        FlagArray { flags }
    }

    /// The number of flags.
    pub fn len(&self) -> (r: usize)
        ensures
            r == self@.len(),
    {
        self.flags.len()
    }

    /// The flag of `i`.
    pub fn read(&self, i: usize) -> (r: bool)
        requires
            i < self@.len(),
        ensures
            r == self@[i as int],
    {
        self.flags[i]
    }

    /// Clears the flag of `i`; clearing a clear flag changes nothing.
    pub fn clear(&mut self, i: usize)
        requires
            i < old(self)@.len(),
        ensures
            final(self)@ == old(self)@.update(i as int, false),
            never_raised(old(self)@, final(self)@),
    {
        self.flags.set(i, false);
    }

    /// Clears, in parallel, the flags of `start`, `start + step`, ... up to
    /// the end. The outcome does not depend on the order of the writes.
    pub fn clear_progression(&mut self, start: usize, step: usize)
        requires
            step > 0,
        ensures
            final(self)@.len() == old(self)@.len(),
            forall|j: int|
                0 <= j < final(self)@.len() ==> #[trigger] final(self)@[j] == (old(self)@[j]
                    && !on_progression(j, start as int, step as int)),
            never_raised(old(self)@, final(self)@),
    {
        par_clear_progression(&mut self.flags, start, step);
    }

    /// Consumes the array and returns the indices of its set flags, ascending.
    pub fn into_sequence(self) -> (r: Vec<usize>)
        ensures
            as_ints(r@) == set_indices(self@),
    {
        let flags = self.flags;
        let mut out: Vec<usize> = Vec::new();
        let mut i: usize = 0;
        while i < flags.len()
            invariant
                i <= flags@.len(),
                as_ints(out@) == set_indices(flags@.take(i as int)),
            decreases flags@.len() - i,
        {
            proof {
                assert(flags@.take(i + 1).drop_last() =~= flags@.take(i as int));
            }
            if flags[i] {
                out.push(i);
                assert(as_ints(out@) =~= set_indices(
                    flags@.take(i as int),
                ).push(i as int));
            }
            i = i + 1;
        }
        assert(flags@.take(flags@.len() as int) =~= flags@);
        out
    }
}

} // verus!
