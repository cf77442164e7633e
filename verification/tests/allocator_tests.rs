use frame_allocator::addr::PhysPageNum;
use frame_allocator::allocator::StackFrameAllocator;
use frame_allocator::errors::KernelError;

fn fresh(start: usize, end: usize) -> StackFrameAllocator {
    let mut fa = StackFrameAllocator::new();
    fa.init(PhysPageNum(start), PhysPageNum(end));
    fa
}

#[test]
fn allocates_frontier_in_order() {
    let mut fa = fresh(100, 103);
    assert_eq!(fa.allocate(), Some(PhysPageNum(100)));
    assert_eq!(fa.allocate(), Some(PhysPageNum(101)));
    assert_eq!(fa.allocate(), Some(PhysPageNum(102)));
}

#[test]
fn exhaustion_after_full_range() {
    // The whole range is handed out exactly once, then allocation reports
    // exhaustion, repeatably.
    let mut fa = fresh(7, 12);
    for i in 0..5 {
        assert_eq!(fa.allocate(), Some(PhysPageNum(7 + i)));
    }
    assert_eq!(fa.allocate(), None);
    assert_eq!(fa.allocate(), None);
}

#[test]
fn empty_range_is_immediately_exhausted() {
    let mut fa = fresh(5, 5);
    assert_eq!(fa.allocate(), None);
}

#[test]
fn recycling_reuses_released_frames_without_frontier_growth() {
    let mut fa = fresh(100, 104);
    let mut first: Vec<usize> = Vec::new();
    for _ in 0..3 {
        first.push(fa.allocate().unwrap().0);
    }
    assert_eq!(first, vec![100, 101, 102]);
    for p in &first {
        assert_eq!(fa.dealloc(PhysPageNum(*p)), Ok(()));
    }
    let mut second: Vec<usize> = Vec::new();
    for _ in 0..3 {
        second.push(fa.allocate().unwrap().0);
    }
    // Exactly the released frames come back (most recently released first)
    // and the frontier has not moved meanwhile: frame 103 is still next.
    let mut sorted = second.clone();
    sorted.sort();
    assert_eq!(sorted, first);
    assert_eq!(second, vec![102, 101, 100]);
    assert_eq!(fa.allocate(), Some(PhysPageNum(103)));
    assert_eq!(fa.allocate(), None);
}

#[test]
fn dealloc_twice_is_a_double_free() {
    let mut fa = fresh(100, 103);
    let p = fa.allocate().unwrap();
    assert_eq!(fa.dealloc(p), Ok(()));
    assert_eq!(fa.dealloc(p), Err(KernelError::FrameDoubleFree));
}

#[test]
fn dealloc_at_or_past_frontier_is_fatal() {
    let mut fa = fresh(100, 103);
    // Nothing allocated yet: the frontier itself was never handed out.
    assert_eq!(fa.dealloc(PhysPageNum(100)), Err(KernelError::FrameNotAllocated));
    let _ = fa.allocate();
    assert_eq!(fa.dealloc(PhysPageNum(101)), Err(KernelError::FrameNotAllocated));
    assert_eq!(fa.dealloc(PhysPageNum(999)), Err(KernelError::FrameNotAllocated));
}

#[test]
fn failed_dealloc_changes_nothing() {
    let mut fa = fresh(100, 102);
    let _ = fa.allocate();
    assert_eq!(fa.dealloc(PhysPageNum(101)), Err(KernelError::FrameNotAllocated));
    // The allocator still behaves as before the failed call.
    assert_eq!(fa.allocate(), Some(PhysPageNum(101)));
    assert_eq!(fa.allocate(), None);
}

#[test]
fn no_frame_is_issued_twice_while_live() {
    // Interleave allocations and releases; at every point the set of live
    // frames holds no duplicate page number.
    let mut fa = fresh(0, 4);
    let mut live: Vec<usize> = Vec::new();
    let a = fa.allocate().unwrap().0;
    live.push(a);
    let b = fa.allocate().unwrap().0;
    live.push(b);
    assert!(live[0] != live[1]);
    assert_eq!(fa.dealloc(PhysPageNum(a)), Ok(()));
    live.retain(|p| *p != a);
    let c = fa.allocate().unwrap().0;
    assert!(!live.contains(&c));
    live.push(c);
    let d = fa.allocate().unwrap().0;
    assert!(!live.contains(&d));
    live.push(d);
    let e = fa.allocate().unwrap().0;
    assert!(!live.contains(&e));
}
