use swym::freeze::{AssertFreeze, Freeze};

fn is_freeze<T: Freeze>() {}

struct Baz(i32);

impl Freeze for Baz {}

#[test]
fn derive_foo() {
    is_freeze::<Baz>()
}

#[test]
fn assert_freeze_round_trip() {
    let x = AssertFreeze::new(vec![1, 2, 3]);
    assert_eq!(*x.get(), vec![1, 2, 3]);
    assert_eq!(AssertFreeze::into_inner(x), vec![1, 2, 3]);
    is_freeze::<AssertFreeze<Baz>>();
    let Baz(inner) = Baz(7);
    assert_eq!(inner, 7);
}
