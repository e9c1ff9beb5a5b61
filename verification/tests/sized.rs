use thinbox::Erased;
use thinbox::ThinBox;

#[test]
fn sized() {
    let v: ThinBox<i32> = ThinBox::new(1);
    println!("{v:?}");
}

#[test]
fn sized_raw() {
    let (ptr, alloc) = ThinBox::new(1).into_raw_with_alloc();
    let v = ThinBox::<i32>::from_raw_with_alloc(ptr, alloc);
    assert_eq!(*v.get(), 1);
}

#[test]
fn unsized_raw() {
    let (ptr, alloc) =
        ThinBox::<i32>::new_unsize(Erased::Sequence(vec![1, 2, 3])).into_raw_with_alloc();
    let v = ThinBox::<i32>::from_raw_with_alloc(ptr, alloc);
    assert_eq!(*v.as_sequence(), vec![1, 2, 3]);
}

#[test]
fn fn_repeat() {
    let f = ThinBox::new_unsize(Erased::Behavior(|| println!("Hello")));
    f.call();
    f.call();
}

#[test]
fn fn_mut() {
    let mut i = 0;
    let mut f = ThinBox::new_unsize(Erased::Behavior(|| {
        let v = i;
        i += 1;
        v
    }));

    assert_eq!(f.call_mut(), 0);
    assert_eq!(f.call_mut(), 1);
    drop(f);
}

#[test]
fn fn_once() {
    let mut f = ThinBox::from_once_checked(|| println!("Hello"));
    assert!(f.invoke().is_some());
    assert!(f.invoke().is_none());
}
