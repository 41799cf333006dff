//! The per-element locking discipline: every element sits behind its own
//! `CRwLock`, and a worker takes one write guard per element it mutates.
//! Correctness does not depend on the ranges being disjoint — the locks make
//! overlapping ranges safe too — but the reference workload always drives
//! this pass with the Partitioner's disjoint ranges.

use crate::lockfree::{bump_covered, init_by_worker_view};
use crate::partition::{
    chunk_size, is_covered, lemma_covered_fits, lemma_covered_in_own_range, worker_of,
};
use crate::structure::{is_pow2, lemma_crwlock_default_view, AlignedVec, CRwLock};
use vstd::arithmetic::div_mod::lemma_multiply_divide_lt;
use vstd::arithmetic::mul::{lemma_mul_by_zero_is_zero, lemma_mul_is_commutative};
use vstd::prelude::*;

verus! {

/// The values currently guarded by a sequence of per-element locks.
pub open spec fn lock_views(s: Seq<CRwLock<i32>>) -> Seq<i32> {
    Seq::new(s.len(), |i: int| s[i]@)
}

/// LockedMutator's initialization pass: a write guard is taken on each
/// covered element in turn and the owning worker's id stored through it; the
/// remainder elements' guards are never taken.
pub fn locked_init(buf: &mut AlignedVec<CRwLock<i32>>, workers: usize)
    requires
        1 <= workers,
        workers <= i32::MAX as usize,
    ensures
        final(buf)@.len() == old(buf)@.len(),
        lock_views(final(buf)@) == init_by_worker_view(lock_views(old(buf)@), workers as nat),
        final(buf).spec_alignment() == old(buf).spec_alignment(),
{
    let n = buf.len();
    let chunk = n / workers;
    proof {
        lemma_covered_fits(n as nat, workers as nat);
    }
    let covered_end = workers * chunk;
    let mut i: usize = 0;
    while i < covered_end
        invariant
            workers >= 1,
            workers <= i32::MAX as usize,
            n == old(buf)@.len(),
            buf@.len() == n,
            chunk == chunk_size(n as nat, workers as nat),
            covered_end == workers * chunk,
            covered_end <= n,
            i <= covered_end,
            buf.spec_alignment() == old(buf).spec_alignment(),
            forall|j: int|
                0 <= j < i ==> (#[trigger] buf@[j])@ as int == worker_of(
                    j,
                    n as nat,
                    workers as nat,
                ),
            forall|j: int| i <= j < n ==> buf@[j] == old(buf)@[j],
        decreases covered_end - i,
    {
        proof {
            if chunk == 0 {
                lemma_mul_by_zero_is_zero(workers as int);
            }
            lemma_mul_is_commutative(workers as int, chunk as int);
            lemma_multiply_divide_lt(i as int, chunk as int, workers as int);
        }
        let w = i / chunk;
        let lock = buf.get_mut_slice(i);
        let slot = lock.write();
        *slot = w as i32;
        i += 1;
    }
    proof {
        assert(lock_views(buf@) =~= init_by_worker_view(
            lock_views(old(buf)@),
            workers as nat,
        ));
    }
}

/// LockedMutator's increment pass: for each covered element the worker takes
/// the write guard, adds one, and releases it before moving on.
pub fn locked_increment(buf: &mut AlignedVec<CRwLock<i32>>, workers: usize)
    requires
        workers >= 1,
        forall|i: int|
            is_covered(i, old(buf)@.len(), workers as nat) ==> (#[trigger] old(buf)@[i])@
                < i32::MAX,
    ensures
        final(buf)@.len() == old(buf)@.len(),
        lock_views(final(buf)@) == bump_covered(lock_views(old(buf)@), workers as nat),
        final(buf).spec_alignment() == old(buf).spec_alignment(),
{
    let n = buf.len();
    let chunk = n / workers;
    proof {
        lemma_covered_fits(n as nat, workers as nat);
    }
    let covered_end = workers * chunk;
    let mut i: usize = 0;
    while i < covered_end
        invariant
            workers >= 1,
            n == old(buf)@.len(),
            buf@.len() == n,
            chunk == chunk_size(n as nat, workers as nat),
            covered_end == workers * chunk,
            covered_end <= n,
            i <= covered_end,
            buf.spec_alignment() == old(buf).spec_alignment(),
            forall|j: int|
                is_covered(j, old(buf)@.len(), workers as nat) ==> (#[trigger] old(buf)@[j])@
                    < i32::MAX,
            forall|j: int|
                0 <= j < i ==> (#[trigger] buf@[j])@ as int == old(buf)@[j]@ + 1,
            forall|j: int| i <= j < n ==> buf@[j] == old(buf)@[j],
        decreases covered_end - i,
    {
        proof {
            assert(is_covered(i as int, n as nat, workers as nat));
        }
        let lock = buf.get_mut_slice(i);
        let v = *lock.read();
        let slot = lock.write();
        *slot = v + 1;
        i += 1;
    }
    proof {
        assert(lock_views(buf@) =~= bump_covered(lock_views(old(buf)@), workers as nat));
    }
}

/// Reads every lock in turn and hands back the guarded values, in index
/// order.
pub fn read_all(buf: &AlignedVec<CRwLock<i32>>) -> (r: Vec<i32>)
    ensures
        r@ == lock_views(buf@),
{
    let n = buf.len();
    let mut r: Vec<i32> = Vec::new();
    let mut i: usize = 0;
    while i < n
        invariant
            i <= n,
            n == buf@.len(),
            r@.len() == i,
            forall|j: int| 0 <= j < i ==> r@[j] == (#[trigger] buf@[j])@,
        decreases n - i,
    {
        let lock = buf.get();
        let v = *lock[i].read();
        r.push(v);
        i += 1;
    }
    proof {
        assert(r@ =~= lock_views(buf@));
    }
    r
}

/// The per-element locking discipline end to end: allocate a cache-line
/// aligned buffer of default locks, store each covered element's worker id
/// through its own write guard, then increment every covered element once,
/// one guard at a time.  The locked buffer is handed back to the caller.
pub fn run_locked(n: usize, workers: usize) -> (r: AlignedVec<CRwLock<i32>>)
    requires
        1 <= workers,
        workers <= i32::MAX as usize,
    ensures
        r@.len() == n,
        r.spec_alignment() == 64,
        forall|i: int|
            is_covered(i, n as nat, workers as nat) ==> (#[trigger] r@[i])@ as int == worker_of(
                i,
                n as nat,
                workers as nat,
            ) + 1,
        forall|i: int|
            0 <= i < n && !is_covered(i, n as nat, workers as nat) ==> (#[trigger] r@[i])@ == 0,
{
    proof {
        reveal_with_fuel(is_pow2, 8);
        assert(is_pow2(64 as nat));
        lemma_crwlock_default_view::<i32>();
    }
    let mut buf = AlignedVec::<CRwLock<i32>>::new(n, 64).unwrap();
    locked_init(&mut buf, workers);
    proof {
        lemma_covered_fits(n as nat, workers as nat);
        assert forall|i: int| is_covered(i, n as nat, workers as nat) implies (
        #[trigger] buf@[i])@ < i32::MAX by {
            lemma_covered_in_own_range(i, n as nat, workers as nat);
            assert(lock_views(buf@)[i] as int == worker_of(i, n as nat, workers as nat));
        }
    }
    locked_increment(&mut buf, workers);
    proof {
        lemma_covered_fits(n as nat, workers as nat);
        assert forall|i: int| is_covered(i, n as nat, workers as nat) implies (
        #[trigger] buf@[i])@ as int == worker_of(i, n as nat, workers as nat) + 1 by {
            lemma_covered_in_own_range(i, n as nat, workers as nat);
            assert(lock_views(buf@)[i] == buf@[i]@);
        }
        assert forall|i: int|
            0 <= i < n && !is_covered(i, n as nat, workers as nat) implies (
        #[trigger] buf@[i])@ == 0 by {
            assert(lock_views(buf@)[i] == buf@[i]@);
        }
    }
    buf
}

/// ChunkMutator and LockedMutator agree: driven from the same initial
/// contents and the same partition, the lock-free pass and the per-element
/// locking pass produce identical final contents — on covered indices both
/// add one, and neither touches the remainder.
pub proof fn lemma_chunked_equals_locked(
    init: Seq<i32>,
    workers: nat,
    chunked: Seq<i32>,
    locked: Seq<i32>,
)
    requires
        workers >= 1,
        chunked == bump_covered(init, workers),
        locked == bump_covered(init, workers),
    ensures
        chunked == locked,
{
}

/// LockedMutator correctness: after one locked increment pass every covered
/// index holds its value from before the pass plus one, and every index
/// outside the partition is untouched.
pub proof fn lemma_increment_effect(s: Seq<i32>, workers: nat)
    requires
        workers >= 1,
    ensures
        bump_covered(s, workers).len() == s.len(),
        forall|i: int|
            is_covered(i, s.len(), workers) && s[i] < i32::MAX ==> #[trigger] bump_covered(
                s,
                workers,
            )[i] as int == s[i] + 1,
        forall|i: int|
            0 <= i < s.len() && !is_covered(i, s.len(), workers) ==> #[trigger] bump_covered(
                s,
                workers,
            )[i] == s[i],
{
    lemma_covered_fits(s.len(), workers);
}

} // verus!
