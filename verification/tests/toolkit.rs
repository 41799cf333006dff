use int_mut::lockfree::{chunk_increment, increment_slice, init_by_worker, run_chunked};
use int_mut::multibuffer::{
    compute, multibuffer_chunked, multibuffer_locked, multibuffer_shared, run_multibuffer,
    DisjointIndexes,
};
use int_mut::partition::partition;
use int_mut::structure::{AlignedVec, BufferError, CRwLock, SharedBuffer};
use int_mut::threadlock::{locked_increment, locked_init, read_all, run_locked};

#[test]
fn allocation_zero_length_succeeds() {
    let buf = AlignedVec::<i32>::new(0, 64).unwrap();
    assert_eq!(buf.len(), 0);
    assert_eq!(buf.alignment(), 64);
    assert!(buf.as_slice().is_empty());
}

#[test]
fn allocation_rejects_non_power_of_two() {
    assert_eq!(
        AlignedVec::<i32>::new(10, 3).err(),
        Some(BufferError::AllocationFailed)
    );
    assert_eq!(
        AlignedVec::<i32>::new(10, 0).err(),
        Some(BufferError::AllocationFailed)
    );
    assert_eq!(
        AlignedVec::<i32>::new(10, 48).err(),
        Some(BufferError::AllocationFailed)
    );
}

#[test]
fn allocation_power_of_two_defaults() {
    let buf = AlignedVec::<i32>::new(5, 16).unwrap();
    assert_eq!(buf.len(), 5);
    assert_eq!(buf.alignment(), 16);
    assert_eq!(buf.as_slice(), &[0, 0, 0, 0, 0]);
}

#[test]
fn element_access_bounds_checked() {
    let buf = AlignedVec::<i32>::new(3, 8).unwrap();
    assert_eq!(buf.element(1), Ok(&0));
    assert_eq!(buf.element(3), Err(BufferError::IndexOutOfRange));
    let mut buf = buf;
    *buf.element_mut(2).unwrap() = 7;
    assert_eq!(buf.element_mut(9).err(), Some(BufferError::IndexOutOfRange));
    assert_eq!(buf.as_slice(), &[0, 0, 7]);
}

#[test]
fn buffer_views_and_fill() {
    let mut buf = AlignedVec::<i32>::new(4, 32).unwrap();
    buf.fill(&9);
    assert_eq!(buf.get(), &vec![9, 9, 9, 9]);
    *buf.get_mut_slice(2) = 1;
    assert_eq!(*buf.get_slice(2), 1);
    buf.get_mut()[0] = 5;
    buf.as_mut_slice()[1] = 6;
    assert_eq!(buf.snapshot(), vec![5, 6, 1, 9]);
}

#[test]
fn partition_even_split() {
    assert_eq!(partition(10, 5), vec![(0, 2), (2, 4), (4, 6), (6, 8), (8, 10)]);
}

#[test]
fn partition_drops_remainder() {
    assert_eq!(partition(10, 3), vec![(0, 3), (3, 6), (6, 9)]);
}

#[test]
fn partition_excess_workers_get_empty_ranges() {
    let ranges = partition(3, 5);
    assert_eq!(ranges.len(), 5);
    for (start, end) in ranges {
        assert_eq!(start, end);
    }
}

#[test]
fn lock_guards_one_value() {
    let mut lock = CRwLock::new(41);
    assert_eq!(*lock.read(), 41);
    *lock.write() += 1;
    assert_eq!(*lock.read(), 42);
    let defaulted: CRwLock<i32> = Default::default();
    assert_eq!(*defaulted.read(), 0);
}

#[test]
fn lock_clone_is_independent() {
    let mut original = CRwLock::new(5);
    let mut copy = original.clone();
    *copy.write() = 9;
    assert_eq!(*original.read(), 5);
    assert_eq!(*copy.read(), 9);
    *original.write() = 3;
    assert_eq!(*original.read(), 3);
    assert_eq!(*copy.read(), 9);
}

#[test]
fn increment_slice_adds_one_everywhere() {
    let mut values = vec![3, -1, 0, 2147483646];
    increment_slice(values.as_mut_slice());
    assert_eq!(values, vec![4, 0, 1, 2147483647]);
}

#[test]
fn chunked_run_even_split() {
    let buf = run_chunked(10, 5);
    assert_eq!(buf.snapshot(), vec![1, 1, 2, 2, 3, 3, 4, 4, 5, 5]);
    assert_eq!(buf.alignment(), 64);
}

#[test]
fn chunked_run_leaves_remainder_at_default() {
    let buf = run_chunked(10, 3);
    assert_eq!(buf.snapshot(), vec![1, 1, 1, 2, 2, 2, 3, 3, 3, 0]);
}

#[test]
fn locked_run_matches_chunked_run() {
    let locked = run_locked(10, 5);
    assert_eq!(read_all(&locked), vec![1, 1, 2, 2, 3, 3, 4, 4, 5, 5]);
    let locked = run_locked(10, 3);
    assert_eq!(read_all(&locked), run_chunked(10, 3).snapshot());
}

#[test]
fn strategies_agree_from_same_start() {
    let mut plain = AlignedVec::<i32>::new(7, 64).unwrap();
    init_by_worker(&mut plain, 2);
    assert_eq!(plain.snapshot(), vec![0, 0, 0, 1, 1, 1, 0]);
    chunk_increment(&mut plain, 2);

    let mut locked = AlignedVec::<CRwLock<i32>>::new(7, 64).unwrap();
    locked_init(&mut locked, 2);
    locked_increment(&mut locked, 2);

    assert_eq!(plain.snapshot(), read_all(&locked));
    assert_eq!(plain.snapshot(), vec![1, 1, 1, 2, 2, 2, 0]);
}

#[test]
fn compute_kernel_exact_values() {
    let a = [2];
    let b = [3];
    let mut c = [0];
    let mut d = [0];
    compute(&a, &b, &mut c, &mut d, 0);
    assert_eq!(c, [5]);
    assert_eq!(d, [15]);
}

#[test]
fn multibuffer_pipeline_small_case() {
    let (c_chunked, d_chunked, c_locked, d_locked) = run_multibuffer(4);
    assert_eq!(c_chunked, vec![3, 3, 3, 3]);
    assert_eq!(d_chunked, vec![6, 6, 6, 6]);
    assert_eq!(c_locked, c_chunked);
    assert_eq!(d_locked, d_chunked);
}

#[test]
fn multibuffer_disciplines_on_general_input() {
    let mut a = AlignedVec::<i32>::new(4, 64).unwrap();
    let mut b = AlignedVec::<i32>::new(4, 64).unwrap();
    for i in 0..4 {
        *a.get_mut_slice(i) = (i as i32) + 1;
        *b.get_mut_slice(i) = 2 * (i as i32) - 3;
    }
    let mut c = AlignedVec::<i32>::new(4, 64).unwrap();
    let mut d = AlignedVec::<i32>::new(4, 64).unwrap();
    multibuffer_chunked(&a, &b, &mut c, &mut d);
    assert_eq!(c.snapshot(), vec![-2, 1, 4, 7]);
    assert_eq!(d.snapshot(), vec![6, -1, 4, 21]);

    let mut c_lock = CRwLock::new(AlignedVec::<i32>::new(4, 64).unwrap());
    let mut d_lock = CRwLock::new(AlignedVec::<i32>::new(4, 64).unwrap());
    multibuffer_locked(&a, &b, &mut c_lock, &mut d_lock);
    assert_eq!(c_lock.read().snapshot(), c.snapshot());
    assert_eq!(d_lock.read().snapshot(), d.snapshot());
}

#[test]
fn disjoint_indexes_are_distinct() {
    let asg = DisjointIndexes::all_indexes(5);
    assert_eq!(asg.len(), 5);
    for p in 0..5 {
        for q in 0..5 {
            if p != q {
                assert_ne!(asg.index_of(p), asg.index_of(q));
            }
        }
    }
}

#[test]
fn shared_discipline_touches_only_assigned_indexes() {
    let mut a = AlignedVec::<i32>::new(4, 64).unwrap();
    let mut b = AlignedVec::<i32>::new(4, 64).unwrap();
    a.fill(&1);
    b.fill(&2);
    let mut c = AlignedVec::<i32>::new(4, 64).unwrap();
    let mut d = AlignedVec::<i32>::new(4, 64).unwrap();
    c.fill(&-7);
    d.fill(&-7);
    let asg = DisjointIndexes::all_indexes(2);
    multibuffer_shared(&a, &b, &mut c, &mut d, &asg);
    assert_eq!(c.snapshot(), vec![3, 3, -7, -7]);
    assert_eq!(d.snapshot(), vec![6, 6, -7, -7]);

    let full = DisjointIndexes::all_indexes(4);
    multibuffer_shared(&a, &b, &mut c, &mut d, &full);
    assert_eq!(c.snapshot(), vec![3, 3, 3, 3]);
    assert_eq!(d.snapshot(), vec![6, 6, 6, 6]);
}

#[test]
fn sealed_buffer_keeps_contents() {
    let mut buf = AlignedVec::<i32>::new(3, 8).unwrap();
    buf.fill(&4);
    *buf.get_mut_slice(0) = 1;
    let shared = SharedBuffer::seal(buf);
    assert_eq!(shared.len(), 3);
    assert_eq!(shared.snapshot(), vec![1, 4, 4]);
    assert_eq!(shared.element(2), Ok(&4));
    assert_eq!(shared.element(3), Err(BufferError::IndexOutOfRange));
}
