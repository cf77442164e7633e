use frame_allocator::addr::{PhysPageNum, PAGE_SIZE};
use frame_allocator::allocator::{
    frame_alloc, frame_dealloc, frame_release, init_frame_allocator, FrameTracker,
    StackFrameAllocator,
};
use frame_allocator::errors::KernelError;
use frame_allocator::phys_mem::PhysMemory;
use frame_allocator::up::UPSafeCell;

fn boot(start: usize, end: usize) -> (UPSafeCell<StackFrameAllocator>, PhysMemory) {
    let mut cell = UPSafeCell::new(StackFrameAllocator::new());
    assert_eq!(
        init_frame_allocator(&mut cell, PhysPageNum(start), PhysPageNum(end)),
        Ok(())
    );
    let mem = PhysMemory::new(start, end - start);
    (cell, mem)
}

#[test]
fn concrete_scenario_100_to_103() {
    // init(start=100, end=103); alloc -> 100, 101, 102, empty;
    // dealloc(101); alloc -> 101; alloc -> empty.
    let (mut cell, mut mem) = boot(100, 103);
    let a = frame_alloc(&mut cell, &mut mem).unwrap().unwrap();
    assert_eq!(a.ppn, PhysPageNum(100));
    let b = frame_alloc(&mut cell, &mut mem).unwrap().unwrap();
    assert_eq!(b.ppn, PhysPageNum(101));
    let c = frame_alloc(&mut cell, &mut mem).unwrap().unwrap();
    assert_eq!(c.ppn, PhysPageNum(102));
    assert!(frame_alloc(&mut cell, &mut mem).unwrap().is_none());
    assert_eq!(frame_dealloc(&mut cell, PhysPageNum(101)), Ok(()));
    let again = frame_alloc(&mut cell, &mut mem).unwrap().unwrap();
    assert_eq!(again.ppn, PhysPageNum(101));
    assert!(frame_alloc(&mut cell, &mut mem).unwrap().is_none());
}

#[test]
fn reallocated_frame_is_zero_filled() {
    // Write non-zero bytes into an owned frame, release it, obtain it again:
    // at the second obtaining every byte reads zero.
    let (mut cell, mut mem) = boot(10, 12);
    let t = frame_alloc(&mut cell, &mut mem).unwrap().unwrap();
    let p = t.ppn;
    assert_eq!(p, PhysPageNum(10));
    mem.write_byte(p, 0, 0xAB);
    mem.write_byte(p, 17, 0x5C);
    mem.write_byte(p, PAGE_SIZE - 1, 0x01);
    assert_eq!(mem.read_byte(p, 0), 0xAB);
    assert_eq!(frame_release(&mut cell, t), Ok(()));
    // Releasing does not zero: the old bytes are still there until the frame
    // is handed out again.
    assert_eq!(mem.read_byte(p, 0), 0xAB);
    assert_eq!(mem.read_byte(p, 17), 0x5C);
    let t2 = frame_alloc(&mut cell, &mut mem).unwrap().unwrap();
    assert_eq!(t2.ppn, p);
    assert_eq!(mem.read_byte(p, 0), 0);
    assert_eq!(mem.read_byte(p, 17), 0);
    assert_eq!(mem.read_byte(p, PAGE_SIZE - 1), 0);
}

#[test]
fn new_frame_tracker_zeroes_only_its_frame() {
    let mut mem = PhysMemory::new(20, 2);
    mem.write_byte(PhysPageNum(21), 3, 0x77);
    let t = FrameTracker::new(PhysPageNum(20), &mut mem);
    assert_eq!(t.ppn, PhysPageNum(20));
    assert_eq!(mem.read_byte(PhysPageNum(20), 3), 0);
    assert_eq!(mem.read_byte(PhysPageNum(21), 3), 0x77);
}

#[test]
fn releasing_a_handle_consumes_it() {
    let (mut cell, mut mem) = boot(0, 2);
    let t = frame_alloc(&mut cell, &mut mem).unwrap().unwrap();
    let p = t.ppn;
    assert_eq!(frame_release(&mut cell, t), Ok(()));
    // The frame is back in the pool; releasing it again by page number is
    // the double-free fault.
    assert_eq!(frame_dealloc(&mut cell, p), Err(KernelError::FrameDoubleFree));
}

#[test]
fn init_rejects_reversed_range() {
    let mut cell = UPSafeCell::new(StackFrameAllocator::new());
    assert_eq!(
        init_frame_allocator(&mut cell, PhysPageNum(8), PhysPageNum(3)),
        Err(KernelError::BadRange)
    );
    // The allocator is untouched and can still be bound correctly.
    assert_eq!(
        init_frame_allocator(&mut cell, PhysPageNum(3), PhysPageNum(8)),
        Ok(())
    );
}

#[test]
fn operations_report_reentrancy_while_a_view_is_out() {
    let (mut cell, mut mem) = boot(0, 4);
    let view = cell.exclusive_access().unwrap();
    match frame_alloc(&mut cell, &mut mem) {
        Err(KernelError::ReentrantAccess) => {}
        _ => panic!("expected the reentrancy fault"),
    }
    assert_eq!(
        frame_dealloc(&mut cell, PhysPageNum(0)),
        Err(KernelError::ReentrantAccess)
    );
    cell.restore(view);
    let t = frame_alloc(&mut cell, &mut mem).unwrap().unwrap();
    assert_eq!(t.ppn, PhysPageNum(0));
}
