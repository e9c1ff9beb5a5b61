use thinbox::CountingAllocator;
use thinbox::Erased;
use thinbox::Metadata;
use thinbox::ThinBox;

#[test]
fn construct_then_extract_returns_value_and_releases_block() {
    let alloc = CountingAllocator::new();
    let b = ThinBox::new_in(41i64, alloc);
    assert_eq!(b.allocator().outstanding_blocks(), 1);
    let (v, alloc) = b.into_inner_with_alloc();
    assert_eq!(v, 41);
    assert_eq!(alloc.outstanding_blocks(), 0);
}

#[test]
fn into_inner_returns_value() {
    let b = ThinBox::new(String::from("abc"));
    assert_eq!(b.into_inner(), "abc");
}

#[test]
fn sequence_handle_preserves_order_and_count() {
    let b = ThinBox::<u16>::new_unsize(Erased::Sequence(vec![9, 8, 7, 7]));
    assert_eq!(b.len(), 4);
    assert_eq!(*b.as_sequence(), vec![9, 8, 7, 7]);
}

#[test]
fn sequence_scenario_no_leak() {
    let b = ThinBox::<i32>::new_unsize(Erased::Sequence(vec![1, 2, 3]));
    assert_eq!(*b.as_sequence(), vec![1, 2, 3]);
    assert_eq!(b.allocator().outstanding_blocks(), 1);
    let alloc = b.dispose();
    assert_eq!(alloc.outstanding_blocks(), 0);
}

#[test]
fn metadata_reports_shape() {
    let fixed = ThinBox::new(5u8);
    assert_eq!(fixed.metadata(), Metadata::Unit);
    let seq = ThinBox::<u8>::new_unsize(Erased::Sequence(vec![1, 2]));
    assert_eq!(seq.metadata(), Metadata::Len(2));
    let call = ThinBox::new_unsize(Erased::Behavior(|| 3u8));
    assert_eq!(call.metadata(), Metadata::Table);
}

#[test]
fn raw_round_trip_then_dispose_releases_once() {
    let b = ThinBox::new(7u32);
    let (raw, alloc) = b.into_raw_with_alloc();
    assert_eq!(alloc.outstanding_blocks(), 1);
    let b = ThinBox::<u32>::from_raw_with_alloc(raw, alloc);
    assert_eq!(*b.get(), 7);
    let alloc = b.dispose();
    assert_eq!(alloc.outstanding_blocks(), 0);
}

#[test]
fn replace_value_swaps_and_returns_previous() {
    let mut b = ThinBox::new(10i32);
    let prev = b.replace_value(20);
    assert_eq!(prev, 10);
    assert_eq!(*b.get(), 20);
}

#[test]
fn try_new_succeeds_with_fresh_allocator() {
    let b = ThinBox::try_new(3u64).unwrap();
    assert_eq!(*b.get(), 3);
    let b = ThinBox::<u64>::try_new_unsize(Erased::Sequence(vec![4, 5])).unwrap();
    assert_eq!(*b.as_sequence(), vec![4, 5]);
}

#[test]
fn delegation_matches_direct_call() {
    let f = || 5i32;
    let handle = ThinBox::new_unsize(Erased::Behavior(f));
    assert_eq!(handle.call(), f());
    let direct = f();
    assert_eq!(handle.call(), direct);
}

#[test]
fn get_mut_mutates_in_place() {
    let mut b = ThinBox::new(vec![1u8, 2]);
    b.get_mut().push(3);
    assert_eq!(*b.get(), vec![1, 2, 3]);
}

#[test]
fn set_element_updates_sequence() {
    let mut b = ThinBox::<i32>::new_unsize(Erased::Sequence(vec![1, 2, 3]));
    b.set_element(1, 9);
    assert_eq!(*b.as_sequence(), vec![1, 9, 3]);
    assert_eq!(b.len(), 3);
}

#[test]
fn zero_sized_value_handle() {
    let b = ThinBox::new(());
    assert_eq!(*b.get(), ());
    let alloc = b.dispose();
    assert_eq!(alloc.outstanding_blocks(), 0);
}
