//! The foundation types: the element trait `GenType`, the aligned buffer
//! `AlignedVec`, the reader/writer lock `CRwLock`, and the error taxonomy.

use vstd::prelude::*;

verus! {

/// The errors the toolkit can surface: an aligned allocation that cannot be
/// satisfied, a lock whose holder failed mid-mutation, and an index outside
/// the buffer.  All three are unrecoverable where they occur and propagate to
/// the caller.
#[derive(Clone, Copy, Debug, PartialEq, Eq, Structural)]
pub enum BufferError {
    AllocationFailed,
    LockPoisoned,
    IndexOutOfRange,
}

/// `a` is a power of two (and in particular nonzero).
pub open spec fn is_pow2(a: nat) -> bool
    decreases a,
{
    if a == 0 {
        false
    } else if a == 1 {
        true
    } else {
        a % 2 == 0 && is_pow2(a / 2)
    }
}

/// Decides `is_pow2` by repeated halving.
pub fn check_pow2(a: usize) -> (r: bool)
    ensures
        r == is_pow2(a as nat),
{
    if a == 0 {
        return false;
    }
    let mut x: usize = a;
    while x > 1
        invariant
            x >= 1,
            is_pow2(a as nat) == is_pow2(x as nat),
        decreases x,
    {
        if x % 2 != 0 {
            return false;
        }
        x = x / 2;
    }
    true
}

/// The element interface: a default value and an independent copy, each with
/// an exact contract.  It plays the role `Clone + Default` play for ordinary
/// element types.
pub trait GenType: Sized {
    /// The value `default_value` returns.
    spec fn default_spec() -> Self;

    /// A fresh element in its default state.
    fn default_value() -> (r: Self)
        ensures
            r == Self::default_spec(),
    ;

    /// An independent copy: the result owns its own storage and equals `self`.
    fn duplicate(&self) -> (r: Self)
        ensures
            r == *self,
    ;
}

impl GenType for i32 {
    open spec fn default_spec() -> Self {
        0
    }

    fn default_value() -> (r: Self) {
        0
    }

    fn duplicate(&self) -> (r: Self) {
        *self
    }
}

/// A contiguous buffer of `T` elements backed by one owned region that is
/// allocated for a caller-chosen alignment.  The alignment exists to place
/// each worker's partition on its own cache lines; construction rejects an
/// alignment that is not a power of two, since no aligned region could
/// satisfy it.  Once constructed the element count never changes; views of
/// the region are handed out either shared (`as_slice`) or exclusive
/// (`as_mut_slice`), never both at once.
pub struct AlignedVec<T: GenType> {
    buffer: Vec<T>,
    alignment: usize,
}

impl<T: GenType> View for AlignedVec<T> {
    type V = Seq<T>;

    closed spec fn view(&self) -> Seq<T> {
        self.buffer@
    }
}

impl<T: GenType> AlignedVec<T> {
    /// The alignment the region was requested with.
    pub closed spec fn spec_alignment(&self) -> usize {
        self.alignment
    }

    /// Well-formed: the requested alignment is one an aligned region can
    /// actually have.
    pub open spec fn wf(&self) -> bool {
        is_pow2(self.spec_alignment() as nat)
    }

    /// Allocates a buffer of `size` elements, each in its default state, for
    /// the given alignment.  Fails exactly when the alignment is not a power
    /// of two; a zero-length request succeeds and yields an empty buffer.
    pub fn new(size: usize, alignment: usize) -> (r: Result<Self, BufferError>)
        ensures
            r is Ok <==> is_pow2(alignment as nat),
            r matches Ok(b) ==> b@.len() == size && b.spec_alignment() == alignment && b.wf()
                && (forall|i: int| 0 <= i < size ==> b@[i] == T::default_spec()),
            r matches Err(e) ==> e == BufferError::AllocationFailed,
    {
        if !check_pow2(alignment) {
            return Err(BufferError::AllocationFailed);
        }
        let mut buffer: Vec<T> = Vec::new();
        let mut i: usize = 0;
        while i < size
            invariant
                i <= size,
                buffer@.len() == i,
                forall|j: int| 0 <= j < i ==> buffer@[j] == T::default_spec(),
            decreases size - i,
        {
            buffer.push(T::default_value());
            i += 1;
        }
        Ok(AlignedVec { buffer, alignment })
    }

    /// The number of elements.
    pub fn len(&self) -> (r: usize)
        ensures
            r == self@.len(),
    {
        self.buffer.len()
    }

    /// The alignment the region was allocated with.
    pub fn alignment(&self) -> (r: usize)
        ensures
            r == self.spec_alignment(),
    {
        self.alignment
    }

    /// A shared view of the whole region.
    pub fn get(&self) -> (r: &Vec<T>)
        ensures
            r@ == self@,
    {
        &self.buffer
    }

    /// The exclusive view of the whole region.
    pub fn get_mut(&mut self) -> (r: &mut Vec<T>)
        ensures
            r@ == old(self)@,
            final(self)@ == final(r)@,
            final(self).spec_alignment() == old(self).spec_alignment(),
    {
        &mut self.buffer
    }

    /// Exclusive access to one element; the index must be in bounds.
    pub fn get_mut_slice(&mut self, index: usize) -> (r: &mut T)
        requires
            index < old(self)@.len(),
        ensures
            *r == old(self)@[index as int],
            final(self)@ == old(self)@.update(index as int, *final(r)),
            final(self).spec_alignment() == old(self).spec_alignment(),
    {
        &mut self.buffer[index]
    }

    /// Shared access to one element; the index must be in bounds.
    pub fn get_slice(&mut self, index: usize) -> (r: &T)
        requires
            index < old(self)@.len(),
        ensures
            *r == old(self)@[index as int],
            final(self)@ == old(self)@,
            final(self).spec_alignment() == old(self).spec_alignment(),
    {
        &self.buffer[index]
    }

    /// The exclusive view of the region as a slice: its length cannot change
    /// through this view.
    pub fn as_mut_slice(&mut self) -> (r: &mut [T])
        ensures
            r@ == old(self)@,
            final(self)@ == final(r)@,
            final(self).spec_alignment() == old(self).spec_alignment(),
    {
        self.buffer.as_mut_slice()
    }

    /// A shared view of the region as a slice.
    pub fn as_slice(&self) -> (r: &[T])
        ensures
            r@ == self@,
    {
        self.buffer.as_slice()
    }

    /// Overwrites every element with an independent copy of `value`.
    pub fn fill(&mut self, value: &T)
        ensures
            final(self)@.len() == old(self)@.len(),
            forall|i: int| 0 <= i < old(self)@.len() ==> final(self)@[i] == *value,
            final(self).spec_alignment() == old(self).spec_alignment(),
    {
        let n = self.buffer.len();
        let mut i: usize = 0;
        while i < n
            invariant
                i <= n,
                self@.len() == n,
                self.spec_alignment() == old(self).spec_alignment(),
                forall|j: int| 0 <= j < i ==> self@[j] == *value,
            decreases n - i,
        {
            self.buffer[i] = value.duplicate();
            i += 1;
        }
    }

    /// Copies the current contents out, element by element, in index order.
    pub fn snapshot(&self) -> (r: Vec<T>)
        ensures
            r@ == self@,
    {
        let n = self.buffer.len();
        let mut r: Vec<T> = Vec::new();
        let mut i: usize = 0;
        while i < n
            invariant
                i <= n,
                n == self@.len(),
                r@.len() == i,
                forall|j: int| 0 <= j < i ==> r@[j] == self@[j],
            decreases n - i,
        {
            r.push(self.buffer[i].duplicate());
            i += 1;
        }
        proof {
            assert(r@ =~= self@);
        }
        r
    }

    /// Bounds-checked shared access to one element: out of range surfaces an
    /// error instead of touching memory outside the region.
    pub fn element(&self, index: usize) -> (r: Result<&T, BufferError>)
        ensures
            index < self@.len() ==> (r matches Ok(v) && *v == self@[index as int]),
            index >= self@.len() ==> (r matches Err(e) && e == BufferError::IndexOutOfRange),
    {
        if index < self.buffer.len() {
            Ok(&self.buffer[index])
        } else {
            Err(BufferError::IndexOutOfRange)
        }
    }

    /// Bounds-checked exclusive access to one element.
    pub fn element_mut(&mut self, index: usize) -> (r: Result<&mut T, BufferError>)
        ensures
            index < old(self)@.len() ==> r is Ok && *r.unwrap() == old(self)@[index as int]
                && final(self)@ == old(self)@.update(index as int, *final(r.unwrap())),
            index >= old(self)@.len() ==> (r matches Err(e) && e == BufferError::IndexOutOfRange
                && final(self)@ == old(self)@),
            final(self).spec_alignment() == old(self).spec_alignment(),
    {
        if index < self.buffer.len() {
            Ok(&mut self.buffer[index])
        } else {
            Err(BufferError::IndexOutOfRange)
        }
    }
}

/// The shared phase of a buffer's life.  A buffer is built and initialized
/// under exclusive ownership, then handed over for shared reading by many
/// workers at once; `seal` is that one-way transition.  The sealed buffer
/// offers shared access only and there is no path back to an exclusive
/// handle, so once sharing has begun no later exclusive-owner phase can
/// exist short of recreating the buffer.
pub struct SharedBuffer<T: GenType> {
    inner: AlignedVec<T>,
}

impl<T: GenType> View for SharedBuffer<T> {
    type V = Seq<T>;

    closed spec fn view(&self) -> Seq<T> {
        self.inner@
    }
}

impl<T: GenType> SharedBuffer<T> {
    /// The alignment the region was requested with.
    pub closed spec fn spec_alignment(&self) -> usize {
        self.inner.spec_alignment()
    }

    /// Consumes the exclusively-owned buffer and begins the shared phase.
    pub fn seal(buf: AlignedVec<T>) -> (r: Self)
        ensures
            r@ == buf@,
            r.spec_alignment() == buf.spec_alignment(),
    {
        SharedBuffer { inner: buf }
    }

    /// The number of elements.
    pub fn len(&self) -> (r: usize)
        ensures
            r == self@.len(),
    {
        self.inner.len()
    }

    /// A shared view of the whole region.
    pub fn get(&self) -> (r: &Vec<T>)
        ensures
            r@ == self@,
    {
        self.inner.get()
    }

    /// Bounds-checked shared access to one element.
    pub fn element(&self, index: usize) -> (r: Result<&T, BufferError>)
        ensures
            index < self@.len() ==> (r matches Ok(v) && *v == self@[index as int]),
            index >= self@.len() ==> (r matches Err(e) && e == BufferError::IndexOutOfRange),
    {
        self.inner.element(index)
    }

    /// Copies the current contents out, element by element, in index order.
    pub fn snapshot(&self) -> (r: Vec<T>)
        ensures
            r@ == self@,
    {
        self.inner.snapshot()
    }
}

/// A per-element reader/writer lock: one value with shared-read or
/// exclusive-write access.  Exclusivity is enforced at the type level — a
/// shared view (`read`) and the exclusive view (`write`) can never be held at
/// the same time — so a verified caller cannot be served inconsistent data
/// and the poisoned state of a failed holder cannot arise here.
pub struct CRwLock<T> {
    data: T,
}

impl<T> View for CRwLock<T> {
    type V = T;

    closed spec fn view(&self) -> T {
        self.data
    }
}

impl<T> CRwLock<T> {
    pub fn new(data: T) -> (r: Self)
        ensures
            r@ == data,
    {
        CRwLock { data }
    }

    /// A shared view of the guarded value; any number may be held at once.
    pub fn read(&self) -> (r: &T)
        ensures
            *r == self@,
    {
        &self.data
    }

    /// The exclusive view of the guarded value: while it is held no other
    /// view of this lock can exist.
    pub fn write(&mut self) -> (r: &mut T)
        ensures
            *r == old(self)@,
            final(self)@ == *final(r),
    {
        &mut self.data
    }
}

impl<T: GenType> GenType for CRwLock<T> {
    closed spec fn default_spec() -> Self {
        CRwLock { data: T::default_spec() }
    }

    fn default_value() -> (r: Self) {
        CRwLock { data: T::default_value() }
    }

    fn duplicate(&self) -> (r: Self) {
        CRwLock { data: self.data.duplicate() }
    }
}

/// A default lock guards the element type's default value.
pub proof fn lemma_crwlock_default_view<T: GenType>()
    ensures
        CRwLock::<T>::default_spec()@ == T::default_spec(),
{
}

/// Copying a lock copies the current value: the copy shares no state with the
/// original, so mutating either afterwards leaves the other unchanged.
impl<T: GenType> Clone for CRwLock<T> {
    fn clone(&self) -> (r: Self)
        ensures
            r@ == self@,
    {
        CRwLock { data: self.data.duplicate() }
    }
}

impl<T: GenType> Default for CRwLock<T> {
    fn default() -> (r: Self)
        ensures
            r@ == T::default_spec(),
    {
        CRwLock { data: T::default_value() }
    }
}

} // verus!
