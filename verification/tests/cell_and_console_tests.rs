use frame_allocator::console::{console_putchar, print};
use frame_allocator::errors::KernelError;
use frame_allocator::up::UPSafeCell;

#[test]
fn cell_hands_out_the_stored_value() {
    let mut cell = UPSafeCell::new(41i32);
    let v = cell.exclusive_access().unwrap();
    assert_eq!(v, 41);
    cell.restore(v + 1);
    let v = cell.exclusive_access().unwrap();
    assert_eq!(v, 42);
}

#[test]
fn second_exclusive_view_is_the_reentrancy_fault() {
    let mut cell = UPSafeCell::new(String::from("state"));
    let v = cell.exclusive_access().unwrap();
    assert_eq!(cell.exclusive_access(), Err(KernelError::ReentrantAccess));
    assert_eq!(cell.exclusive_access(), Err(KernelError::ReentrantAccess));
    cell.restore(v);
    assert_eq!(cell.exclusive_access(), Ok(String::from("state")));
}

#[test]
fn putchar_appends_to_the_sink() {
    let mut out: Vec<usize> = Vec::new();
    console_putchar(&mut out, 104);
    console_putchar(&mut out, 105);
    assert_eq!(out, vec![104, 105]);
}

#[test]
fn print_emits_each_character_in_order() {
    let mut out: Vec<usize> = Vec::new();
    print(&mut out, "ok\n");
    assert_eq!(out, vec![111, 107, 10]);
    print(&mut out, "");
    assert_eq!(out, vec![111, 107, 10]);
    print(&mut out, "a1");
    assert_eq!(out, vec![111, 107, 10, 97, 49]);
}
