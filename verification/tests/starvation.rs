use std::sync::atomic::AtomicUsize;
use swym::epoch::QuiesceEpoch;
use swym::starvation::{
    wait_wake_step, WaitWake,
    dec_thread_estimate, inc_thread_estimate, max_elapsed_epochs, starve_filter, starve_step,
    starve_unlock_next_state, BackoffAction, FilterOp, Progress, ProgressImpl, StarveStep,
    Starvation, LOCKED_BIT, NO_STARVERS, PARKED_BIT, SPIN_LIMIT, YIELD_LIMIT,
};

fn epoch(e: usize) -> QuiesceEpoch {
    QuiesceEpoch::new(e).unwrap()
}

#[test]
fn thread_estimates() {
    let max = AtomicUsize::new(0);
    inc_thread_estimate(&max);
    inc_thread_estimate(&max);
    assert_eq!(max_elapsed_epochs(&max), 8);
    dec_thread_estimate(&max);
    assert_eq!(max_elapsed_epochs(&max), 4);
}

#[test]
fn backoff_grows_then_starves() {
    let mut p = Progress::new();
    assert!(p.wait_for_starvers());
    for b in 0..=SPIN_LIMIT {
        assert_eq!(
            p.failed_to_progress(epoch(3), 1000),
            BackoffAction::Spin { iterations: 1 << b }
        );
    }
    for _ in SPIN_LIMIT + 1..=YIELD_LIMIT {
        assert_eq!(p.failed_to_progress(epoch(3), 1000), BackoffAction::Yield);
    }
    assert_eq!(p.failed_to_progress(epoch(3), 1000), BackoffAction::StarveLock);
    assert!(!p.wait_for_starvers());
    assert_eq!(p.failed_to_progress(epoch(3), 1000), BackoffAction::Yield);
    assert!(p.progressed());
    assert!(p.wait_for_starvers());
    assert!(!p.progressed());
}

#[test]
fn long_transactions_yield_early() {
    let mut p = Progress::new();
    assert_eq!(p.failed_to_progress(epoch(3), 4), BackoffAction::Spin { iterations: 1 });
    assert_eq!(p.failed_to_progress(epoch(7), 4), BackoffAction::Yield);
    assert_eq!(p.failed_to_progress(epoch(9), 4), BackoffAction::Yield);
    assert!(!p.progressed());
}

#[test]
fn upgrade_decision() {
    let fresh = ProgressImpl::new();
    assert!(!fresh.should_upgrade(epoch(3), 4));
    let failing = ProgressImpl::NotStarving { first_failed_epoch: Some(epoch(3)), backoff: 1 };
    assert!(!failing.should_upgrade(epoch(5), 4));
    assert!(failing.should_upgrade(epoch(7), 4));
    let backed_off =
        ProgressImpl::NotStarving { first_failed_epoch: Some(epoch(3)), backoff: YIELD_LIMIT };
    assert!(backed_off.should_upgrade(epoch(3), 4));
}

#[test]
fn starvation_steps() {
    assert_eq!(starve_step(0), StarveStep::Acquire);
    assert_eq!(starve_step(LOCKED_BIT), StarveStep::SetParked(LOCKED_BIT | PARKED_BIT));
    assert_eq!(starve_step(LOCKED_BIT | PARKED_BIT), StarveStep::Park);
    assert_eq!(starve_filter(false, false), (FilterOp::Unpark, false));
    assert_eq!(starve_filter(false, true), (FilterOp::Unpark, true));
    assert_eq!(starve_filter(true, false), (FilterOp::Stop, true));
    assert_eq!(starve_unlock_next_state(true), LOCKED_BIT);
    assert_eq!(starve_unlock_next_state(false), 0);

    let s = Starvation::new();
    assert!(!s.wait_for_starvers());
    assert!(s.starve_lock() || s.starve_lock() || s.starve_lock());
    assert!(s.wait_for_starvers());
    assert_eq!(s.state(), LOCKED_BIT);
    assert!(s.starve_unlock());
    assert_eq!(s.state(), 0);
    s.store(LOCKED_BIT | PARKED_BIT);
    assert!(!s.starve_unlock());
}

#[test]
fn waking_from_a_starvation_wait() {
    let own = 0x1000;
    assert_eq!(wait_wake_step(Some(NO_STARVERS), own), WaitWake::NoStarvers);
    assert_eq!(wait_wake_step(Some(own), own), WaitWake::HandedOver);
    assert_eq!(wait_wake_step(Some(0x2000), own), WaitWake::Again);
    assert_eq!(wait_wake_step(None, own), WaitWake::Again);
}
