use cherry_pit::wq::regulator::{Admission, SettleOutcome};
use cherry_pit::wq::worker_pool::{
    rate_limit_sleep, ExecutionResult, RegulatedWorker, WorkerAction, WorkerPoolConfig,
    RATE_LIMIT_MAX_SLEEP_SECS,
};

#[test]
fn default_pool_has_sixteen_workers() {
    assert_eq!(WorkerPoolConfig::default().worker_count, 16);
}

#[test]
fn known_reset_sleeps_until_it_plus_slack() {
    assert_eq!(rate_limit_sleep(Some(110), 100, 1), (12, 1));
    assert_eq!(rate_limit_sleep(Some(1_000), 100, 4), (RATE_LIMIT_MAX_SLEEP_SECS, 4));
}

#[test]
fn unknown_or_past_reset_backs_off_exponentially() {
    assert_eq!(rate_limit_sleep(None, 100, 1), (1, 2));
    assert_eq!(rate_limit_sleep(Some(50), 100, 8), (8, 16));
    assert_eq!(rate_limit_sleep(None, 100, 40), (40, 60));
    assert_eq!(rate_limit_sleep(None, 100, 60), (60, 60));
}

#[test]
fn worker_walks_the_regulator_chain() {
    let mut w = RegulatedWorker::new(2);
    assert_eq!(w.on_dequeued(true), WorkerAction::Admit(0));
    assert_eq!(w.on_admission(Admission::Admitted), WorkerAction::Admit(1));
    assert_eq!(w.on_admission(Admission::Admitted), WorkerAction::Execute);
    assert_eq!(
        w.on_executed(ExecutionResult::Succeeded(SettleOutcome::Free)),
        WorkerAction::SettleAndDeliver { count: 2, outcome: SettleOutcome::Free }
    );
    assert_eq!(w.on_delivered(true), WorkerAction::Dequeue);
    assert_eq!(w.on_dequeued(true), WorkerAction::Admit(0));
    assert_eq!(w.on_admission(Admission::Cancelled), WorkerAction::Exit);
}

#[test]
fn failed_execution_is_charged() {
    let mut w = RegulatedWorker::new(1);
    w.on_dequeued(true);
    w.on_admission(Admission::Admitted);
    assert_eq!(
        w.on_executed(ExecutionResult::Failed),
        WorkerAction::SettleAndDeliver { count: 1, outcome: SettleOutcome::Charged }
    );
    assert_eq!(w.on_delivered(false), WorkerAction::Exit);
}

#[test]
fn unregulated_worker_executes_directly_and_exits_on_close() {
    let mut w = RegulatedWorker::new(0);
    assert_eq!(w.on_dequeued(true), WorkerAction::Execute);
    assert_eq!(
        w.on_executed(ExecutionResult::Succeeded(SettleOutcome::Charged)),
        WorkerAction::SettleAndDeliver { count: 0, outcome: SettleOutcome::Charged }
    );
    assert_eq!(w.on_delivered(true), WorkerAction::Dequeue);
    assert_eq!(w.on_dequeued(false), WorkerAction::Exit);
}

use cherry_pit::wq::worker_pool::{BudgetedAction, BudgetedWorker};

#[test]
fn budgeted_worker_runs_budget_then_rate_limit_then_executor() {
    let mut w = BudgetedWorker::new();
    assert_eq!(w.next(), BudgetedAction::Dequeue);
    assert_eq!(w.on_dequeued(true), BudgetedAction::AcquireBudget);
    assert_eq!(w.on_budget(true), BudgetedAction::CheckRateLimit);
    assert_eq!(w.on_rate_limit(false), BudgetedAction::Execute);
    assert_eq!(w.on_executed(), BudgetedAction::Deliver);
    assert_eq!(w.on_delivered(true), BudgetedAction::Dequeue);
    assert_eq!(w.on_dequeued(true), BudgetedAction::AcquireBudget);
    assert_eq!(w.on_budget(true), BudgetedAction::CheckRateLimit);
    assert_eq!(w.on_rate_limit(true), BudgetedAction::WaitRateLimit);
    assert_eq!(w.on_rate_limit_wait(true), BudgetedAction::Execute);
}

#[test]
fn budgeted_worker_stops_on_any_refusal() {
    let mut w = BudgetedWorker::new();
    assert_eq!(w.on_dequeued(false), BudgetedAction::Exit);
    let mut w = BudgetedWorker::new();
    w.on_dequeued(true);
    assert_eq!(w.on_budget(false), BudgetedAction::Exit);
    let mut w = BudgetedWorker::new();
    w.on_dequeued(true);
    w.on_budget(true);
    w.on_rate_limit(true);
    assert_eq!(w.on_rate_limit_wait(false), BudgetedAction::Exit);
    let mut w = BudgetedWorker::new();
    w.on_dequeued(true);
    w.on_budget(true);
    w.on_rate_limit(false);
    w.on_executed();
    assert_eq!(w.on_delivered(false), BudgetedAction::Exit);
}

#[test]
fn rate_limit_wait_paces_and_caps() {
    let mut w = cherry_pit::wq::worker_pool::RateLimitWait::new();
    // Unknown reset: 1, 2, 4, ... seconds, capped at 60.
    let sleeps: Vec<u64> = (0..8).map(|_| w.next_sleep(None, 1_000)).collect();
    assert_eq!(sleeps, vec![1, 2, 4, 8, 16, 32, 60, 60]);
    // A known future reset: until it plus slack, capped; backoff unchanged.
    let mut w = cherry_pit::wq::worker_pool::RateLimitWait::new();
    assert_eq!(w.next_sleep(Some(1_010), 1_000), 12);
    assert_eq!(w.next_sleep(Some(5_000), 1_000), 60);
    assert_eq!(w.next_sleep(Some(900), 1_000), 1);
    assert_eq!(w.next_sleep(None, 1_000), 2);
}
