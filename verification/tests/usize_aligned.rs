use core::mem;
use swym::usize_aligned::{ForcedUsizeAligned, UsizeAligned};

// A type aligned beyond a machine word.
struct OverAligned(u128);

#[test]
fn alignment() {
    let x = 0i8;
    let x_usize_aligned = UsizeAligned::new(x);
    assert_eq!(
        mem::align_of_val(&x_usize_aligned),
        mem::align_of::<usize>()
    );

    let x = ();
    let x_usize_aligned = UsizeAligned::new(x);
    assert_eq!(
        mem::align_of_val(&x_usize_aligned),
        mem::align_of::<usize>()
    );

    let x = OverAligned(0);
    let x_usize_aligned = UsizeAligned::new(x);
    assert!(mem::align_of_val(&x_usize_aligned) > mem::align_of::<usize>());

    let x = OverAligned(0);
    let x_force_usize_aligned = ForcedUsizeAligned::new(x);
    assert_eq!(
        mem::align_of_val(&x_force_usize_aligned),
        mem::align_of::<usize>()
    );
}

#[test]
fn wrappers_give_back_their_value() {
    let a = UsizeAligned::new(5u16);
    assert_eq!(*a.get(), 5);
    assert_eq!(a.into_inner(), 5);
    let f = ForcedUsizeAligned::new(String::from("abc"));
    assert_eq!(f.into_inner(), "abc");
    let OverAligned(v) = UsizeAligned::new(OverAligned(3)).into_inner();
    assert_eq!(v, 3);
}
