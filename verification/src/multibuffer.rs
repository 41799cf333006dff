//! The multi-buffer pipeline: over four equal-length buffers it computes
//! `C[i] = A[i] + B[i]` and then `D[i] = C[i] * B[i]` — `D` from the freshly
//! written `C`, so the order within one index matters while the indices stay
//! independent.  The pass is exercised under two disciplines for contrast:
//! disjoint chunks of `C` and `D` with no locks, and one whole-buffer lock
//! over each of `C` and `D`.  A third path distributes the whole buffer with
//! one index per worker; instead of a shared raw pointer whose safety rests
//! on luck, the indices travel in a `DisjointIndexes` assignment whose
//! construction makes a duplicate structurally impossible.

use crate::structure::{is_pow2, AlignedVec, CRwLock};
use vstd::prelude::*;

verus! {

/// What `C` must hold at index `i`: the sum of `A` and `B` there.
pub open spec fn sum_val(a: Seq<i32>, b: Seq<i32>, i: int) -> int {
    a[i] + b[i]
}

/// What `D` must hold at index `i`: the just-computed `C` times `B` there.
pub open spec fn prod_val(a: Seq<i32>, b: Seq<i32>, i: int) -> int {
    (a[i] + b[i]) * b[i]
}

/// `x` fits in a 32-bit element.
pub open spec fn in_i32(x: int) -> bool {
    i32::MIN <= x <= i32::MAX
}

/// The whole pipeline may run without overflow: at every index both the sum
/// and the product fit in an element.
pub open spec fn fits(a: Seq<i32>, b: Seq<i32>) -> bool {
    forall|i: int|
        #![trigger sum_val(a, b, i)]
        #![trigger prod_val(a, b, i)]
        0 <= i < a.len() ==> in_i32(sum_val(a, b, i)) && in_i32(prod_val(a, b, i))
}

/// The pipeline's postcondition: `C` and `D` hold the sum and the product at
/// every index.
pub open spec fn computed(a: Seq<i32>, b: Seq<i32>, c: Seq<i32>, d: Seq<i32>) -> bool {
    &&& b.len() == a.len()
    &&& c.len() == a.len()
    &&& d.len() == a.len()
    &&& forall|i: int|
        #![trigger c[i]]
        #![trigger d[i]]
        0 <= i < a.len() ==> c[i] as int == sum_val(a, b, i) && d[i] as int == prod_val(a, b, i)
}

/// The elementwise kernel both disciplines share: writes the sum into `C`,
/// then the product of that fresh sum into `D`, at one index.
pub fn compute(buf_a: &[i32], buf_b: &[i32], buf_c: &mut [i32], buf_d: &mut [i32], elem: usize)
    requires
        buf_b@.len() == buf_a@.len(),
        old(buf_c)@.len() == buf_a@.len(),
        old(buf_d)@.len() == buf_a@.len(),
        elem < buf_a@.len(),
        in_i32(sum_val(buf_a@, buf_b@, elem as int)),
        in_i32(prod_val(buf_a@, buf_b@, elem as int)),
    ensures
        final(buf_c)@ == old(buf_c)@.update(
            elem as int,
            sum_val(buf_a@, buf_b@, elem as int) as i32,
        ),
        final(buf_d)@ == old(buf_d)@.update(
            elem as int,
            prod_val(buf_a@, buf_b@, elem as int) as i32,
        ),
{
    buf_c[elem] = buf_a[elem] + buf_b[elem];
    buf_d[elem] = buf_c[elem] * buf_b[elem];
}

/// The chunk discipline: `C` and `D` are walked as disjoint pieces with no
/// locks, each index computed exactly once.
pub fn multibuffer_chunked(
    buf_a: &AlignedVec<i32>,
    buf_b: &AlignedVec<i32>,
    buf_c: &mut AlignedVec<i32>,
    buf_d: &mut AlignedVec<i32>,
)
    requires
        buf_b@.len() == buf_a@.len(),
        old(buf_c)@.len() == buf_a@.len(),
        old(buf_d)@.len() == buf_a@.len(),
        fits(buf_a@, buf_b@),
    ensures
        computed(buf_a@, buf_b@, final(buf_c)@, final(buf_d)@),
        final(buf_c).spec_alignment() == old(buf_c).spec_alignment(),
        final(buf_d).spec_alignment() == old(buf_d).spec_alignment(),
{
    let n = buf_a.len();
    let mut i: usize = 0;
    while i < n
        invariant
            n == buf_a@.len(),
            buf_b@.len() == n,
            buf_c@.len() == n,
            buf_d@.len() == n,
            i <= n,
            fits(buf_a@, buf_b@),
            buf_c.spec_alignment() == old(buf_c).spec_alignment(),
            buf_d.spec_alignment() == old(buf_d).spec_alignment(),
            forall|j: int|
                0 <= j < i ==> (#[trigger] buf_c@[j]) as int == sum_val(buf_a@, buf_b@, j)
                    && buf_d@[j] as int == prod_val(buf_a@, buf_b@, j),
        decreases n - i,
    {
        compute(buf_a.as_slice(), buf_b.as_slice(), buf_c.as_mut_slice(), buf_d.as_mut_slice(), i);
        i += 1;
    }
}

/// The whole-buffer lock discipline: one lock guards all of `C` and another
/// all of `D`; each is acquired once per index iteration, so every worker
/// serializes on the same two locks — the opposite end of the granularity
/// spectrum from per-element locking.
pub fn multibuffer_locked(
    buf_a: &AlignedVec<i32>,
    buf_b: &AlignedVec<i32>,
    c_lock: &mut CRwLock<AlignedVec<i32>>,
    d_lock: &mut CRwLock<AlignedVec<i32>>,
)
    requires
        buf_b@.len() == buf_a@.len(),
        (old(c_lock)@)@.len() == buf_a@.len(),
        (old(d_lock)@)@.len() == buf_a@.len(),
        fits(buf_a@, buf_b@),
    ensures
        computed(buf_a@, buf_b@, (final(c_lock)@)@, (final(d_lock)@)@),
        (final(c_lock)@).spec_alignment() == (old(c_lock)@).spec_alignment(),
        (final(d_lock)@).spec_alignment() == (old(d_lock)@).spec_alignment(),
{
    let n = buf_a.len();
    let mut i: usize = 0;
    while i < n
        invariant
            n == buf_a@.len(),
            buf_b@.len() == n,
            (c_lock@)@.len() == n,
            (d_lock@)@.len() == n,
            i <= n,
            fits(buf_a@, buf_b@),
            (c_lock@).spec_alignment() == (old(c_lock)@).spec_alignment(),
            (d_lock@).spec_alignment() == (old(d_lock)@).spec_alignment(),
            forall|j: int|
                0 <= j < i ==> (#[trigger] (c_lock@)@[j]) as int == sum_val(buf_a@, buf_b@, j)
                    && (d_lock@)@[j] as int == prod_val(buf_a@, buf_b@, j),
        decreases n - i,
    {
        proof {
            assert(in_i32(sum_val(buf_a@, buf_b@, i as int)));
            assert(in_i32(prod_val(buf_a@, buf_b@, i as int)));
        }
        let av = buf_a.get()[i];
        let bv = buf_b.get()[i];
        let sum = av + bv;
        let c_buf = c_lock.write();
        let cslot = c_buf.get_mut_slice(i);
        *cslot = sum;
        let prod = sum * bv;
        let d_buf = d_lock.write();
        let dslot = d_buf.get_mut_slice(i);
        *dslot = prod;
        i += 1;
    }
}

/// The two disciplines agree: any `C` and `D` the chunk discipline produces
/// and any the whole-buffer lock discipline produces from the same `A` and
/// `B` are identical, element for element.
pub proof fn lemma_disciplines_agree(
    a: Seq<i32>,
    b: Seq<i32>,
    c1: Seq<i32>,
    d1: Seq<i32>,
    c2: Seq<i32>,
    d2: Seq<i32>,
)
    requires
        computed(a, b, c1, d1),
        computed(a, b, c2, d2),
    ensures
        c1 == c2,
        d1 == d2,
{
    assert(c1 =~= c2);
    assert(d1 =~= d2);
}

/// A pairwise-distinct index assignment: worker `k` owns index `self@[k]`
/// and nothing else.  Handing every worker the whole buffer is safe exactly
/// because no index appears twice; building the assignment from a bound —
/// rather than letting callers supply arbitrary indices — makes a duplicate
/// assignment structurally impossible.
pub struct DisjointIndexes {
    idx: Vec<usize>,
}

impl View for DisjointIndexes {
    type V = Seq<usize>;

    closed spec fn view(&self) -> Seq<usize> {
        self.idx@
    }
}

/// Index `i` belongs to some worker of the assignment.
pub open spec fn assigned(asg: Seq<usize>, i: int) -> bool {
    exists|k: int| 0 <= k < asg.len() && asg[k] == i
}

impl DisjointIndexes {
    /// No index is handed to two workers.
    pub open spec fn wf(&self) -> bool {
        forall|p: int, q: int| 0 <= p < q < self@.len() ==> self@[p] != self@[q]
    }

    /// Every assigned index lies inside a buffer of `n` elements.
    pub open spec fn bounded(&self, n: nat) -> bool {
        forall|k: int| 0 <= k < self@.len() ==> self@[k] < n
    }

    /// One worker per index of a buffer of `n` elements: worker `k` owns
    /// index `k`.  Distinctness holds by construction.
    pub fn all_indexes(n: usize) -> (r: Self)
        ensures
            r@.len() == n,
            forall|k: int| 0 <= k < n ==> r@[k] == k,
            r.wf(),
            r.bounded(n as nat),
    {
        let mut idx: Vec<usize> = Vec::new();
        let mut k: usize = 0;
        while k < n
            invariant
                k <= n,
                idx@.len() == k,
                forall|j: int| 0 <= j < k ==> idx@[j] == j,
            decreases n - k,
        {
            idx.push(k);
            k += 1;
        }
        DisjointIndexes { idx }
    }

    /// How many workers hold an index.
    pub fn len(&self) -> (r: usize)
        ensures
            r == self@.len(),
    {
        self.idx.len()
    }

    /// The index worker `k` owns.
    pub fn index_of(&self, k: usize) -> (r: usize)
        requires
            k < self@.len(),
        ensures
            r == self@[k as int],
    {
        self.idx[k]
    }
}

/// The shared-buffer discipline: every worker sees all of `C` and `D` but
/// writes only at its own assigned index.  No lock and no slice split
/// protect the elements — disjointness of the assignment is the entire
/// safety argument, which is why the assignment travels as `DisjointIndexes`
/// instead of a bare pointer plus a number.
pub fn multibuffer_shared(
    buf_a: &AlignedVec<i32>,
    buf_b: &AlignedVec<i32>,
    buf_c: &mut AlignedVec<i32>,
    buf_d: &mut AlignedVec<i32>,
    asg: &DisjointIndexes,
)
    requires
        buf_b@.len() == buf_a@.len(),
        old(buf_c)@.len() == buf_a@.len(),
        old(buf_d)@.len() == buf_a@.len(),
        fits(buf_a@, buf_b@),
        asg.bounded(buf_a@.len()),
    ensures
        final(buf_c)@.len() == old(buf_c)@.len(),
        final(buf_d)@.len() == old(buf_d)@.len(),
        forall|k: int|
            0 <= k < asg@.len() ==> final(buf_c)@[#[trigger] asg@[k] as int] as int == sum_val(
                buf_a@,
                buf_b@,
                asg@[k] as int,
            ) && final(buf_d)@[asg@[k] as int] as int == prod_val(buf_a@, buf_b@, asg@[k] as int),
        forall|i: int|
            0 <= i < buf_a@.len() && !assigned(asg@, i) ==> final(buf_c)@[i] == old(buf_c)@[i]
                && final(buf_d)@[i] == old(buf_d)@[i],
        final(buf_c).spec_alignment() == old(buf_c).spec_alignment(),
        final(buf_d).spec_alignment() == old(buf_d).spec_alignment(),
{
    let m = asg.len();
    let mut k: usize = 0;
    while k < m
        invariant
            m == asg@.len(),
            buf_b@.len() == buf_a@.len(),
            buf_c@.len() == buf_a@.len(),
            buf_d@.len() == buf_a@.len(),
            k <= m,
            fits(buf_a@, buf_b@),
            asg.bounded(buf_a@.len()),
            buf_c.spec_alignment() == old(buf_c).spec_alignment(),
            buf_d.spec_alignment() == old(buf_d).spec_alignment(),
            forall|p: int|
                0 <= p < k ==> buf_c@[#[trigger] asg@[p] as int] as int == sum_val(
                    buf_a@,
                    buf_b@,
                    asg@[p] as int,
                ) && buf_d@[asg@[p] as int] as int == prod_val(buf_a@, buf_b@, asg@[p] as int),
            forall|i: int|
                0 <= i < buf_a@.len() && !assigned(asg@.take(k as int), i) ==> buf_c@[i] == old(
                    buf_c,
                )@[i] && buf_d@[i] == old(buf_d)@[i],
        decreases m - k,
    {
        let i = asg.index_of(k);
        compute(buf_a.as_slice(), buf_b.as_slice(), buf_c.as_mut_slice(), buf_d.as_mut_slice(), i);
        k += 1;
        proof {
            assert forall|i2: int|
                0 <= i2 < buf_a@.len() && !assigned(asg@.take(k as int), i2) implies buf_c@[i2]
                == old(buf_c)@[i2] && buf_d@[i2] == old(buf_d)@[i2] by {
                assert(!assigned(asg@.take(k - 1), i2)) by {
                    if assigned(asg@.take(k - 1), i2) {
                        let p = choose|p: int|
                            0 <= p < asg@.take(k - 1).len() && #[trigger] asg@.take(k - 1)[p]
                                == i2;
                        assert(asg@.take(k as int)[p] == i2);
                    }
                }
                assert(asg@.take(k as int)[k - 1] == asg@[k - 1]);
            }
        }
    }
    proof {
        assert(asg@.take(m as int) =~= asg@);
    }
}

/// The multi-buffer pipeline end to end: four cache-line aligned buffers,
/// `A` all ones and `B` all twos, the pass run once under the chunk
/// discipline and once under the whole-buffer lock discipline.  Both runs'
/// `C` and `D` are handed back in that order; since the disciplines agree,
/// the two pairs are identical.  Reporting the values is the caller's
/// business, not the core's.
pub fn run_multibuffer(n: usize) -> (r: (Vec<i32>, Vec<i32>, Vec<i32>, Vec<i32>))
    ensures
        r.0@.len() == n && r.1@.len() == n,
        forall|i: int| 0 <= i < n ==> r.0@[i] == 3 && r.1@[i] == 6,
        r.2@ == r.0@,
        r.3@ == r.1@,
{
    proof {
        reveal_with_fuel(is_pow2, 8);
        assert(is_pow2(64 as nat));
    }
    let mut buf_a = AlignedVec::<i32>::new(n, 64).unwrap();
    let mut buf_b = AlignedVec::<i32>::new(n, 64).unwrap();
    let mut buf_c = AlignedVec::<i32>::new(n, 64).unwrap();
    let mut buf_d = AlignedVec::<i32>::new(n, 64).unwrap();
    buf_a.fill(&1);
    buf_b.fill(&2);
    multibuffer_chunked(&buf_a, &buf_b, &mut buf_c, &mut buf_d);
    let c_chunked = buf_c.snapshot();
    let d_chunked = buf_d.snapshot();
    let mut c_lock = CRwLock::new(AlignedVec::<i32>::new(n, 64).unwrap());
    let mut d_lock = CRwLock::new(AlignedVec::<i32>::new(n, 64).unwrap());
    multibuffer_locked(&buf_a, &buf_b, &mut c_lock, &mut d_lock);
    let c_locked = c_lock.read().snapshot();
    let d_locked = d_lock.read().snapshot();
    proof {
        lemma_disciplines_agree(buf_a@, buf_b@, c_chunked@, d_chunked@, c_locked@, d_locked@);
    }
    (c_chunked, d_chunked, c_locked, d_locked)
}

} // verus!
