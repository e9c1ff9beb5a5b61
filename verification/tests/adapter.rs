use std::cell::Cell;
use thinbox::CheckedOnce;
use thinbox::CountingAllocator;
use thinbox::RepeatedInvocation;
use thinbox::StrictOnce;
use thinbox::ThinBox;
use thinbox::UncheckedOnce;

#[test]
fn checked_policy_present_then_absent() {
    let count = Cell::new(0u32);
    let mut f = ThinBox::from_once_checked(|| {
        count.set(count.get() + 1);
        42i32
    });
    assert_eq!(f.invoke(), Some(42));
    assert_eq!(count.get(), 1);
    assert_eq!(f.invoke(), None);
    assert_eq!(f.invoke(), None);
    assert_eq!(count.get(), 1);
}

#[test]
fn checked_policy_unit_result() {
    let mut f = ThinBox::from_once_checked(|| println!("adapter ran"));
    assert_eq!(f.invoke(), Some(()));
    assert_eq!(f.invoke(), None);
}

#[test]
fn strict_policy_ok_then_repeated_invocation() {
    let mut f = ThinBox::from_once(|| 7u8);
    assert_eq!(f.invoke(), Ok(7));
    assert_eq!(f.invoke(), Err(RepeatedInvocation));
}

#[test]
fn strict_adapter_standalone() {
    let count = Cell::new(0u32);
    let mut a = StrictOnce::new(|| {
        count.set(count.get() + 1);
        "done"
    });
    assert_eq!(a.invoke(), Ok("done"));
    assert_eq!(count.get(), 1);
    assert_eq!(a.invoke(), Err(RepeatedInvocation));
    assert_eq!(count.get(), 1);
}

#[test]
fn checked_adapter_standalone() {
    let mut a = CheckedOnce::new(|| 11u64);
    assert_eq!(a.invoke(), Some(11));
    assert_eq!(a.invoke(), None);
}

#[test]
fn unchecked_policy_single_use() {
    let mut f = ThinBox::from_once_unchecked(|| 13i32);
    assert_eq!(f.invoke(), 13);
    let mut a = UncheckedOnce::new(|| 4u8);
    assert_eq!(a.invoke(), 4);
}

#[test]
fn adapters_in_explicit_allocator() {
    let alloc = CountingAllocator::new();
    let mut f = ThinBox::from_once_in(|| 1i32, alloc);
    assert_eq!(f.allocator().outstanding_blocks(), 1);
    assert_eq!(f.invoke(), Ok(1));
    let alloc = f.dispose();
    assert_eq!(alloc.outstanding_blocks(), 0);

    let alloc = CountingAllocator::new();
    let mut f = ThinBox::from_once_checked_in(|| 2i32, alloc);
    assert_eq!(f.invoke(), Some(2));
    assert_eq!(f.invoke(), None);
    let alloc = f.dispose();
    assert_eq!(alloc.outstanding_blocks(), 0);
}
