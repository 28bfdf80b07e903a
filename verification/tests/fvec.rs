use swym::fvec::FVec;

#[test]
fn next_push_allocates() {
    let v = FVec::<usize>::with_capacity(0);
    assert!(v.next_push_allocates());
    assert!(!v.next_n_pushes_allocates(0));
    assert!(v.next_n_pushes_allocates(1));
    assert!(v.next_n_pushes_allocates(100));

    let mut v = FVec::<usize>::with_capacity(1);
    assert!(!v.next_push_allocates());
    assert!(!v.next_n_pushes_allocates(1));
    assert!(v.next_n_pushes_allocates(2));
    assert!(v.next_n_pushes_allocates(100));

    v.push(0);
    assert!(v.next_push_allocates());
    assert!(!v.next_n_pushes_allocates(0));
    assert!(v.next_n_pushes_allocates(1));
    assert!(v.next_n_pushes_allocates(100));
}

#[test]
fn push_unchecked() {
    let mut v = FVec::<usize>::with_capacity(1);
    assert_eq!(v.len(), 0);
    v.push_unchecked(0);
    assert_eq!(v.len(), 1);
}

#[test]
fn pop_unchecked() {
    let mut v = FVec::<usize>::with_capacity(1);
    v.push(42);
    assert_eq!(v.len(), 1);
    let fourty_two = v.pop_unchecked();
    assert_eq!(fourty_two, 42);
    assert_eq!(v.len(), 0);
}

#[test]
fn swap_remove_unchecked() {
    let mut v = FVec::<usize>::with_capacity(0);
    v.push(42);
    v.push(43);
    v.push(44);
    v.push(45);
    let removed = v.swap_remove_unchecked(1);
    assert_eq!(removed, 43);
    assert_eq!(*v.get(0), 42);
    assert_eq!(*v.get(1), 45);
    assert_eq!(*v.get(2), 44);

    let removed = v.swap_remove_unchecked(2);
    assert_eq!(removed, 44);
    assert_eq!(*v.get(0), 42);
    assert_eq!(*v.get(1), 45);
}

#[test]
fn back_unchecked() {
    let mut v = FVec::<usize>::with_capacity(0);
    v.push(42);
    v.push(43);
    v.push(44);
    v.push(45);
    assert_eq!(*v.back_unchecked(), 45);
    v.pop();
    assert_eq!(*v.back_unchecked(), 44);
    v.pop();
    assert_eq!(*v.back_unchecked(), 43);
    v.pop();
    assert_eq!(*v.back_unchecked(), 42);
}

#[test]
fn extend_unchecked() {
    let mut v = FVec::<usize>::with_capacity(32);
    v.extend_unchecked(&[42; 32]);
    assert_eq!(v.len(), 32);
    assert_eq!(v.capacity(), 32);
    for x in v.as_slice() {
        assert_eq!(*x, 42);
    }

    v.extend_unchecked(&[42; 0]);
    assert_eq!(v.len(), 32);
    assert_eq!(v.capacity(), 32);
    for x in v.as_slice() {
        assert_eq!(*x, 42);
    }

    v.clear();
    v.extend_unchecked(&[42; 0]);
    assert_eq!(v.len(), 0);
    assert_eq!(v.capacity(), 32);
}

#[test]
fn growth_doubles_from_eight_for_bytes() {
    let mut v = FVec::<u8>::new();
    assert_eq!(v.capacity(), 0);
    v.push(1);
    assert_eq!(v.capacity(), 8);
    for i in 0..7 {
        v.push(i);
    }
    assert!(v.next_push_allocates());
    v.push(9);
    assert_eq!(v.capacity(), 16);
    assert_eq!(v.len(), 9);
    assert_eq!(*v.back(), 9);
    v.set(0, 7);
    assert_eq!(*v.get(0), 7);
    assert_eq!(v.pop(), Some(9));
    assert_eq!(v.into_vec(), vec![7, 0, 1, 2, 3, 4, 5, 6]);
}

#[test]
fn zero_more_pushes_never_allocate() {
    let mut v: FVec<u32> = FVec::new();
    assert!(!v.next_n_pushes_allocates(0));
    v.push(1);
    assert!(!v.next_n_pushes_allocates(0));
    assert!(v.len() <= v.capacity());
}

#[test]
fn growth_starts_by_item_size() {
    let mut words = FVec::<u64>::new();
    words.push(1);
    assert_eq!(words.capacity(), 4);
    let mut big = FVec::<[u8; 2048]>::new();
    big.push([0; 2048]);
    assert_eq!(big.capacity(), 1);
    big.push([1; 2048]);
    assert_eq!(big.capacity(), 2);
}
