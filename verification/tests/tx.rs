use swym::tx::{Error, InternalStatus, SetError, Status, TryReadErr, TryRwErr};

#[test]
fn errors_and_statuses() {
    let e = Error::conflict();
    assert_eq!(e, Error::conflict());
    let s = SetError { value: 4, error: e };
    let mapped = s.map(|v| v * 2);
    assert_eq!(mapped.value, 8);
    assert_eq!(mapped.error, e);
    assert_eq!(Status::from_set_error(mapped).kind, InternalStatus::Error(e));
    assert_eq!(Status::await_retry().kind, InternalStatus::Retry);
    assert_eq!(Status::from_error(e).kind, InternalStatus::Error(e));
    assert_eq!(SetError { value: "x", error: e }.into_error(), e);
    let _ = TryReadErr::new();
    let _ = TryRwErr::new();
}
