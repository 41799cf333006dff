//! The lock-free discipline: the buffer is mutated range by range with no
//! locks at all, each worker confined to its own disjoint range from the
//! Partitioner.  Safety rests on the ranges never overlapping
//! (`lemma_partition_disjoint`), not on any runtime check.

use crate::partition::{
    chunk_size, is_covered, lemma_covered_fits, lemma_covered_in_own_range, worker_of,
};
use crate::structure::{is_pow2, AlignedVec};
use vstd::arithmetic::div_mod::lemma_multiply_divide_lt;
use vstd::arithmetic::mul::{lemma_mul_by_zero_is_zero, lemma_mul_is_commutative};
use vstd::prelude::*;

verus! {

/// The contents after one increment pass: every covered index one larger,
/// every uncovered index untouched.
pub open spec fn bump_covered(s: Seq<i32>, workers: nat) -> Seq<i32>
    recommends
        workers >= 1,
{
    Seq::new(
        s.len(),
        |i: int|
            if is_covered(i, s.len(), workers) {
                (s[i] + 1) as i32
            } else {
                s[i]
            },
    )
}

/// The contents after the initialization pass: every covered index holds the
/// id of the worker whose range it lies in, every uncovered index is
/// untouched.
pub open spec fn init_by_worker_view(s: Seq<i32>, workers: nat) -> Seq<i32>
    recommends
        workers >= 1,
{
    Seq::new(
        s.len(),
        |i: int|
            if is_covered(i, s.len(), workers) {
                worker_of(i, s.len(), workers) as i32
            } else {
                s[i]
            },
    )
}

/// The per-worker kernel of the chunk strategy: increments every element of
/// the one disjoint chunk this worker owns.  A parallel runner may hand each
/// worker one such chunk; since the chunks never alias, no locks are needed.
pub fn increment_slice(chunk: &mut [i32])
    requires
        forall|i: int| 0 <= i < old(chunk)@.len() ==> old(chunk)@[i] < i32::MAX,
    ensures
        final(chunk)@.len() == old(chunk)@.len(),
        forall|i: int|
            0 <= i < old(chunk)@.len() ==> final(chunk)@[i] as int == old(chunk)@[i] + 1,
{
    let n = chunk.len();
    let mut i: usize = 0;
    while i < n
        invariant
            i <= n,
            n == old(chunk)@.len(),
            chunk@.len() == n,
            forall|j: int| 0 <= j < old(chunk)@.len() ==> old(chunk)@[j] < i32::MAX,
            forall|j: int| 0 <= j < i ==> chunk@[j] as int == old(chunk)@[j] + 1,
            forall|j: int| i <= j < n ==> chunk@[j] == old(chunk)@[j],
        decreases n - i,
    {
        let v = chunk[i];
        chunk[i] = v + 1;
        i += 1;
    }
}

/// ChunkMutator: one increment pass, worker by worker, each touching only
/// its own range.  The remainder indices, covered by no range, are never
/// read or written.
pub fn chunk_increment(buf: &mut AlignedVec<i32>, workers: usize)
    requires
        workers >= 1,
        forall|i: int|
            is_covered(i, old(buf)@.len(), workers as nat) ==> old(buf)@[i] < i32::MAX,
    ensures
        final(buf)@ == bump_covered(old(buf)@, workers as nat),
        final(buf).spec_alignment() == old(buf).spec_alignment(),
{
    let n = buf.len();
    let chunk = n / workers;
    proof {
        lemma_covered_fits(n as nat, workers as nat);
    }
    let covered_end = workers * chunk;
    let mut i: usize = 0;
    while i < covered_end
        invariant
            workers >= 1,
            n == old(buf)@.len(),
            buf@.len() == n,
            chunk == chunk_size(n as nat, workers as nat),
            covered_end == workers * chunk,
            covered_end <= n,
            i <= covered_end,
            buf.spec_alignment() == old(buf).spec_alignment(),
            forall|j: int|
                is_covered(j, old(buf)@.len(), workers as nat) ==> old(buf)@[j] < i32::MAX,
            forall|j: int| 0 <= j < i ==> buf@[j] as int == old(buf)@[j] + 1,
            forall|j: int| i <= j < n ==> buf@[j] == old(buf)@[j],
        decreases covered_end - i,
    {
        proof {
            assert(is_covered(i as int, n as nat, workers as nat));
        }
        let slot = buf.get_mut_slice(i);
        let v = *slot;
        *slot = v + 1;
        i += 1;
    }
    proof {
        assert(buf@ =~= bump_covered(old(buf)@, workers as nat));
    }
}

/// The initialization pass of the reference workload: each covered index is
/// set to the id of the worker that owns it; the remainder indices keep
/// their value.
pub fn init_by_worker(buf: &mut AlignedVec<i32>, workers: usize)
    requires
        1 <= workers,
        workers <= i32::MAX as usize,
    ensures
        final(buf)@ == init_by_worker_view(old(buf)@, workers as nat),
        final(buf).spec_alignment() == old(buf).spec_alignment(),
{
    let n = buf.len();
    let chunk = n / workers;
    proof {
        lemma_covered_fits(n as nat, workers as nat);
    }
    let covered_end = workers * chunk;
    let mut i: usize = 0;
    while i < covered_end
        invariant
            workers >= 1,
            workers <= i32::MAX as usize,
            n == old(buf)@.len(),
            buf@.len() == n,
            chunk == chunk_size(n as nat, workers as nat),
            covered_end == workers * chunk,
            covered_end <= n,
            i <= covered_end,
            buf.spec_alignment() == old(buf).spec_alignment(),
            forall|j: int|
                0 <= j < i ==> buf@[j] as int == worker_of(j, n as nat, workers as nat),
            forall|j: int| i <= j < n ==> buf@[j] == old(buf)@[j],
        decreases covered_end - i,
    {
        proof {
            if chunk == 0 {
                lemma_mul_by_zero_is_zero(workers as int);
            }
            lemma_mul_is_commutative(workers as int, chunk as int);
            lemma_multiply_divide_lt(i as int, chunk as int, workers as int);
        }
        let w = i / chunk;
        let slot = buf.get_mut_slice(i);
        *slot = w as i32;
        i += 1;
    }
    proof {
        assert(buf@ =~= init_by_worker_view(old(buf)@, workers as nat));
    }
}

/// The lock-free discipline end to end: allocate a cache-line aligned
/// buffer, set each covered index to its worker's id, then increment every
/// covered index once through disjoint ranges.  The result is handed back to
/// the caller; reporting it is the caller's business, not the core's.
pub fn run_chunked(n: usize, workers: usize) -> (r: AlignedVec<i32>)
    requires
        1 <= workers,
        workers <= i32::MAX as usize,
    ensures
        r@.len() == n,
        r.spec_alignment() == 64,
        forall|i: int|
            is_covered(i, n as nat, workers as nat) ==> r@[i] as int == worker_of(
                i,
                n as nat,
                workers as nat,
            ) + 1,
        forall|i: int|
            0 <= i < n && !is_covered(i, n as nat, workers as nat) ==> r@[i] == 0,
{
    proof {
        reveal_with_fuel(is_pow2, 8);
        assert(is_pow2(64 as nat));
    }
    let mut buf = AlignedVec::<i32>::new(n, 64).unwrap();
    init_by_worker(&mut buf, workers);
    proof {
        lemma_covered_fits(n as nat, workers as nat);
        assert forall|i: int| is_covered(i, n as nat, workers as nat) implies buf@[i]
            < i32::MAX by {
            lemma_covered_in_own_range(i, n as nat, workers as nat);
        }
    }
    chunk_increment(&mut buf, workers);
    proof {
        lemma_covered_fits(n as nat, workers as nat);
        assert forall|i: int| is_covered(i, n as nat, workers as nat) implies buf@[i] as int
            == worker_of(i, n as nat, workers as nat) + 1 by {
            lemma_covered_in_own_range(i, n as nat, workers as nat);
        }
    }
    buf
}

} // verus!
