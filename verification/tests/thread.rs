use swym::epoch::{EpochClock, ParkStatus, QuiesceEpoch, FIRST};
use swym::quiesce::SynchList;
use swym::rw::CommitOutcome;
use swym::starvation::{BackoffAction, ProgressImpl};
use swym::thread::{PinResult, RunAction, RunCounters, RwEvent, Thread};
use swym::tx::{Error, Status};

#[test]
fn pinning() {
    let clock = EpochClock::new();
    let mut thread = Thread::new();
    assert!(!thread.is_pinned());
    let pin = match thread.try_pin(&clock) {
        PinResult::Pinned(e) => e,
        other => panic!("unexpected {:?}", other),
    };
    assert_eq!(pin.get(), FIRST);
    assert!(thread.is_pinned());
    assert_eq!(thread.try_pin(&clock), PinResult::AlreadyPinned);
    let _ = clock.fetch_and_tick();
    let action = thread.failed_to_progress(pin, 100);
    assert_eq!(action, BackoffAction::Spin { iterations: 1 });
    assert_eq!(thread.repin(&clock).unwrap().get(), FIRST + 2);
    assert!(!thread.unpin_with_progress());
    assert!(!thread.is_pinned());
    assert_eq!(thread.repin(&clock).unwrap().get(), FIRST + 2);
    thread.unpin_without_progress();
    assert!(!thread.is_pinned());
    thread.become_starving();
    assert_eq!(thread.progress().state(), ProgressImpl::Starving);
    assert!(thread.progressed());
    assert!(!thread.progressed());
}

#[test]
fn read_write_loop_steps() {
    let mut counters = RunCounters::new();
    assert_eq!(counters.rw_step(RwEvent::Returned), RunAction::Commit);
    assert_eq!(
        counters.rw_step(RwEvent::Failed(Status::from_error(Error::conflict()))),
        RunAction::SnoozeRepin
    );
    assert_eq!(counters.rw_step(RwEvent::Failed(Status::await_retry())), RunAction::ParkRepin);
    assert_eq!(
        counters.rw_step(RwEvent::Committed(CommitOutcome::Conflict)),
        RunAction::SnoozeRepin
    );
    assert_eq!(
        counters.rw_step(RwEvent::Committed(CommitOutcome::ClockExhausted)),
        RunAction::Abort
    );
    let committed = CommitOutcome::Committed {
        sync_epoch: QuiesceEpoch::new(FIRST).unwrap(),
        collect: false,
        park_status: ParkStatus::NoParked,
    };
    assert_eq!(counters.rw_step(RwEvent::Committed(committed)), RunAction::Finish);
    assert_eq!(counters.rw_step(RwEvent::Committed(CommitOutcome::ReadOnly)), RunAction::Finish);
    assert_eq!(counters.eager_conflicts, 1);
    assert_eq!(counters.commit_conflicts, 1);
    assert_eq!(counters.read_conflicts, 0);

    let conflict: Result<u8, Error> = Err(Error::conflict());
    assert_eq!(counters.read_step(&conflict), RunAction::SnoozeRepin);
    assert_eq!(counters.read_step(&Ok::<u8, Error>(3)), RunAction::Finish);
    assert_eq!(counters.read_conflicts, 1);
}

#[test]
fn registering_threads() {
    let mut list = SynchList::new();
    assert_eq!(list.len(), 0);
    list.register(10);
    list.register(20);
    list.register(30);
    assert!(list.unregister(10));
    assert_eq!(list.len(), 2);
    assert_eq!(list.get(0), 30);
    assert_eq!(list.get(1), 20);
    assert!(!list.unregister(10));
    assert_eq!(list.len(), 2);
    list.register(40);
    assert!(list.unregister(40));
    assert_eq!(list.len(), 2);
    assert!(list.unregister(20));
    assert!(list.unregister(30));
    assert_eq!(list.len(), 0);
}
