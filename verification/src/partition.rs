//! The Partitioner: a pure mapping from an element count and a worker count
//! to a sequence of contiguous, pairwise-disjoint index ranges, one per
//! worker.  Each range has length `floor(n / workers)`; when `n` is not a
//! multiple of `workers` the trailing `n % workers` indices are covered by no
//! range at all — a deliberate design point the mutators preserve.

use vstd::prelude::*;
use vstd::arithmetic::div_mod::{
    lemma_div_pos_is_pos, lemma_fundamental_div_mod, lemma_mod_division_less_than_divisor,
    lemma_multiply_divide_lt,
};
use vstd::arithmetic::mul::{lemma_mul_inequality, lemma_mul_is_distributive_add_other_way};

verus! {

/// How many elements each worker's range holds.
pub open spec fn chunk_size(n: nat, workers: nat) -> nat
    recommends
        workers >= 1,
{
    n / workers
}

/// Where worker `k`'s range begins.
pub open spec fn range_start(k: int, n: nat, workers: nat) -> int {
    k * chunk_size(n, workers)
}

/// Where worker `k`'s range ends (exclusive).
pub open spec fn range_end(k: int, n: nat, workers: nat) -> int {
    (k + 1) * chunk_size(n, workers)
}

/// Index `i` falls inside some worker's range.
pub open spec fn is_covered(i: int, n: nat, workers: nat) -> bool {
    0 <= i < workers * chunk_size(n, workers)
}

/// The worker whose range covers index `i`.
pub open spec fn worker_of(i: int, n: nat, workers: nat) -> int
    recommends
        chunk_size(n, workers) > 0,
{
    i / (chunk_size(n, workers) as int)
}

/// Computes the partition: exactly `workers` ranges, range `k` being
/// `[k * chunk, (k + 1) * chunk)` with `chunk = floor(n / workers)`.  The
/// remainder indices belong to no range; an excess worker (when
/// `workers > n`) receives an empty range rather than failing.
pub fn partition(n: usize, workers: usize) -> (r: Vec<(usize, usize)>)
    requires
        workers >= 1,
    ensures
        r@.len() == workers,
        forall|k: int|
            0 <= k < workers ==> (#[trigger] r@[k]).0 == range_start(k, n as nat, workers as nat)
                && r@[k].1 == range_end(k, n as nat, workers as nat),
{
    let chunk = n / workers;
    proof {
        lemma_covered_fits(n as nat, workers as nat);
    }
    let mut r: Vec<(usize, usize)> = Vec::new();
    let mut k: usize = 0;
    while k < workers
        invariant
            k <= workers,
            workers >= 1,
            chunk == n as nat / workers as nat,
            workers * chunk <= n,
            r@.len() == k,
            forall|j: int|
                0 <= j < k ==> (#[trigger] r@[j]).0 == range_start(j, n as nat, workers as nat)
                    && r@[j].1 == range_end(j, n as nat, workers as nat),
        decreases workers - k,
    {
        proof {
            lemma_mul_inequality(k as int, workers as int, chunk as int);
            lemma_mul_inequality(k + 1, workers as int, chunk as int);
        }
        r.push((k * chunk, (k + 1) * chunk));
        k += 1;
    }
    r
}

/// The ranges together cover exactly `workers * chunk_size(n, workers)`
/// indices, and never more than `n`.
pub proof fn lemma_covered_fits(n: nat, workers: nat)
    requires
        workers >= 1,
    ensures
        workers * chunk_size(n, workers) <= n,
{
    lemma_fundamental_div_mod(n as int, workers as int);
    lemma_mod_division_less_than_divisor(n as int, workers as int);
}

/// Partition disjointness: each range has length `chunk_size(n, workers)`,
/// ranges of distinct workers never overlap (the earlier one ends before the
/// later one starts), and the covered indices stay within the buffer.
pub proof fn lemma_partition_disjoint(n: nat, workers: nat)
    requires
        workers >= 1,
    ensures
        forall|k: int|
            0 <= k < workers ==> range_end(k, n, workers) - #[trigger] range_start(k, n, workers)
                == chunk_size(n, workers),
        forall|k1: int, k2: int|
            0 <= k1 < k2 < workers ==> #[trigger] range_end(k1, n, workers) <= #[trigger] range_start(
                k2,
                n,
                workers,
            ),
        forall|k: int|
            0 <= k < workers ==> #[trigger] range_end(k, n, workers) <= workers * chunk_size(
                n,
                workers,
            ),
        workers * chunk_size(n, workers) <= n,
{
    let c = chunk_size(n, workers) as int;
    assert forall|k: int| 0 <= k < workers implies range_end(k, n, workers) - #[trigger] range_start(
        k,
        n,
        workers,
    ) == chunk_size(n, workers) by {
        lemma_mul_is_distributive_add_other_way(c, k, 1);
    }
    assert forall|k1: int, k2: int| 0 <= k1 < k2 < workers implies #[trigger] range_end(
        k1,
        n,
        workers,
    ) <= #[trigger] range_start(k2, n, workers) by {
        lemma_mul_inequality(k1 + 1, k2, c);
    }
    assert forall|k: int| 0 <= k < workers implies #[trigger] range_end(k, n, workers) <= workers
        * chunk_size(n, workers) by {
        lemma_mul_inequality(k + 1, workers as int, c);
    }
    lemma_covered_fits(n, workers);
}

/// A covered index lies inside the range of its own worker, and of no other:
/// `worker_of` names the one worker responsible for it.
pub proof fn lemma_covered_in_own_range(i: int, n: nat, workers: nat)
    requires
        workers >= 1,
        chunk_size(n, workers) > 0,
        is_covered(i, n, workers),
    ensures
        0 <= worker_of(i, n, workers) < workers,
        range_start(worker_of(i, n, workers), n, workers) <= i < range_end(
            worker_of(i, n, workers),
            n,
            workers,
        ),
{
    let c = chunk_size(n, workers) as int;
    lemma_div_pos_is_pos(i, c);
    lemma_multiply_divide_lt(i, c, workers as int);
    lemma_fundamental_div_mod(i, c);
    lemma_mod_division_less_than_divisor(i, c);
    lemma_mul_is_distributive_add_other_way(c, i / c, 1);
}

} // verus!

