use std::time::Duration;

use cherry_pit::wq::budget::{AcquireStep, BudgetGate, EpochOutcome, EpochUsage, Replenished};
use cherry_pit::wq::regulator::SettleOutcome;

#[test]
fn grants_until_the_limit_then_elects_one() {
    let mut gate = BudgetGate::new(2, Duration::from_secs(1));
    assert_eq!(gate.try_acquire(), AcquireStep::Granted);
    assert_eq!(gate.try_acquire(), AcquireStep::Granted);
    assert_eq!(gate.calls_made(), 2);
    assert_eq!(gate.try_acquire(), AcquireStep::Elected);
    assert_eq!(gate.try_acquire(), AcquireStep::Wait);
    assert_eq!(gate.try_acquire(), AcquireStep::Wait);
    assert_eq!(gate.calls_made(), 2);
    assert_eq!(gate.total_calls_made(), 2);
}

#[test]
fn cooldown_resets_the_epoch() {
    let mut gate = BudgetGate::new(1, Duration::from_millis(5));
    assert_eq!(gate.try_acquire(), AcquireStep::Granted);
    assert_eq!(gate.try_acquire(), AcquireStep::Elected);
    assert!(gate.finish_transition(EpochOutcome::CooldownElapsed));
    assert_eq!(gate.calls_made(), 0);
    assert_eq!(gate.try_acquire(), AcquireStep::Granted);
    assert_eq!(gate.total_calls_made(), 2);
    assert_eq!(gate.wait_duration(), Duration::from_millis(5));
}

#[test]
fn replenish_applies_the_new_ceiling() {
    let mut gate = BudgetGate::new(1, Duration::from_secs(1));
    assert_eq!(gate.try_acquire(), AcquireStep::Granted);
    assert_eq!(gate.try_acquire(), AcquireStep::Elected);
    let outcome = Replenished::Ceiling(3).epoch_outcome();
    assert_eq!(outcome, EpochOutcome::Replenished(3));
    assert!(gate.finish_transition(outcome));
    assert_eq!(gate.epoch_usage(), EpochUsage { calls_made: 0, epoch_limit: 3 });
    for _ in 0..3 {
        assert_eq!(gate.try_acquire(), AcquireStep::Granted);
    }
    assert_eq!(gate.try_acquire(), AcquireStep::Elected);
}

#[test]
fn failed_transition_fails_closed() {
    for report in [Replenished::Cancelled, Replenished::Unavailable] {
        let mut gate = BudgetGate::new(1, Duration::from_secs(1));
        assert_eq!(gate.try_acquire(), AcquireStep::Granted);
        assert_eq!(gate.try_acquire(), AcquireStep::Elected);
        assert!(!gate.finish_transition(report.epoch_outcome()));
        assert_eq!(gate.epoch_usage(), EpochUsage { calls_made: 1, epoch_limit: 1 });
        // The election was released: the next caller is elected again.
        assert_eq!(gate.try_acquire(), AcquireStep::Elected);
    }
    let mut gate = BudgetGate::new(1, Duration::from_secs(1));
    gate.try_acquire();
    gate.try_acquire();
    assert!(!gate.finish_transition(EpochOutcome::Cancelled));
}

#[test]
fn abandoned_transition_releases_the_election() {
    let mut gate = BudgetGate::new(1, Duration::from_secs(1));
    gate.try_acquire();
    assert_eq!(gate.try_acquire(), AcquireStep::Elected);
    assert_eq!(gate.try_acquire(), AcquireStep::Wait);
    gate.abandon_transition();
    assert_eq!(gate.calls_made(), 1);
    assert_eq!(gate.try_acquire(), AcquireStep::Elected);
}

#[test]
fn refund_gives_a_permit_back_and_saturates() {
    let mut gate = BudgetGate::new(2, Duration::from_secs(1));
    gate.refund();
    assert_eq!(gate.calls_made(), 0);
    gate.try_acquire();
    gate.try_acquire();
    gate.refund();
    assert_eq!(gate.calls_made(), 1);
    assert_eq!(gate.total_calls_made(), 2);
    assert_eq!(gate.try_acquire(), AcquireStep::Granted);
}

#[test]
fn settle_free_refunds_and_charged_keeps() {
    let mut gate = BudgetGate::new(2, Duration::from_secs(1));
    gate.try_acquire();
    gate.settle(SettleOutcome::Charged);
    assert_eq!(gate.calls_made(), 1);
    gate.settle(SettleOutcome::Free);
    assert_eq!(gate.calls_made(), 0);
}

#[test]
fn lowering_the_limit_keeps_the_counter() {
    let mut gate = BudgetGate::new(5, Duration::from_secs(1));
    gate.try_acquire();
    gate.try_acquire();
    gate.try_acquire();
    gate.set_epoch_limit(2);
    assert_eq!(gate.epoch_usage(), EpochUsage { calls_made: 3, epoch_limit: 2 });
    assert_eq!(gate.try_acquire(), AcquireStep::Elected);
    // Raising the limit reopens room at once, even mid-transition.
    gate.set_epoch_limit(10);
    assert_eq!(gate.try_acquire(), AcquireStep::Granted);
}
