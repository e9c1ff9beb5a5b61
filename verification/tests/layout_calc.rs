use thinbox::AllocError;
use thinbox::Allocator;
use thinbox::CountingAllocator;
use thinbox::Layout;

#[test]
fn extend_places_value_after_descriptor() {
    let descriptor = Layout { size: 8, align: 8 };
    let value = Layout { size: 12, align: 4 };
    let (combined, offset) = descriptor.extend(value).unwrap();
    assert_eq!(offset, 8);
    assert_eq!(combined, Layout { size: 20, align: 8 });
}

#[test]
fn extend_inserts_padding_for_stricter_value_alignment() {
    let descriptor = Layout { size: 8, align: 8 };
    let value = Layout { size: 16, align: 16 };
    let (combined, offset) = descriptor.extend(value).unwrap();
    assert_eq!(offset, 16);
    assert_eq!(combined, Layout { size: 32, align: 16 });
}

#[test]
fn extend_of_empty_descriptor_has_zero_offset() {
    let descriptor = Layout { size: 0, align: 1 };
    let value = Layout { size: 4, align: 4 };
    let (combined, offset) = descriptor.extend(value).unwrap();
    assert_eq!(offset, 0);
    assert_eq!(combined, Layout { size: 4, align: 4 });
}

#[test]
fn extend_fails_on_oversized_combination() {
    let half = Layout { size: isize::MAX as usize, align: 1 };
    assert!(half.extend(half).is_none());
}

#[test]
fn repeat_scales_size() {
    let elem = Layout { size: 4, align: 4 };
    assert_eq!(elem.repeat(3).unwrap(), Layout { size: 12, align: 4 });
    assert_eq!(elem.repeat(0).unwrap(), Layout { size: 0, align: 4 });
}

#[test]
fn repeat_fails_on_overflow() {
    let elem = Layout { size: 8, align: 8 };
    assert!(elem.repeat(usize::MAX / 4).is_none());
}

#[test]
fn allocator_hands_out_aligned_fresh_addresses() {
    let mut a = CountingAllocator::new();
    let l = Layout { size: 24, align: 8 };
    let first = a.allocate(l).unwrap();
    let second = a.allocate(l).unwrap();
    assert_eq!(first % 8, 0);
    assert_eq!(second % 8, 0);
    assert_ne!(first, second);
    assert_eq!(a.outstanding_blocks(), 2);
    a.deallocate(first, l);
    assert_eq!(a.outstanding_blocks(), 1);
    a.deallocate(second, l);
    assert_eq!(a.outstanding_blocks(), 0);
}

#[test]
fn allocator_reports_exhaustion() {
    let mut a = CountingAllocator::new();
    let huge = Layout { size: isize::MAX as usize, align: 1 };
    assert!(a.allocate(huge).is_ok());
    assert!(a.allocate(huge).is_ok());
    assert_eq!(a.allocate(huge), Err(AllocError));
}
