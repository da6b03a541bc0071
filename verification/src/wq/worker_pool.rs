//! Decisions of the worker pool: its configuration, the pacing of a
//! rate-limit wait, and the admit/execute/settle cycle of a regulated
//! worker.
use vstd::prelude::*;

use crate::wq::regulator::{Admission, SettleOutcome};

verus! {

/// Configuration for the worker pool.
#[non_exhaustive]
pub struct WorkerPoolConfig {
    /// Number of concurrent workers.
    pub worker_count: usize,
}

impl Default for WorkerPoolConfig {
    /// Sixteen workers.
    fn default() -> (c: Self)
        ensures
            c.worker_count == 16,
    {
        WorkerPoolConfig { worker_count: 16 }
    }
}

/// Longest single rate-limit sleep, in seconds.
pub const RATE_LIMIT_MAX_SLEEP_SECS: u64 = 60;

/// Slack added after a known reset instant, in seconds.
pub const RATE_LIMIT_RESET_SLACK_SECS: u64 = 2;

/// First fallback backoff when the reset instant is unknown, in seconds.
pub const RATE_LIMIT_INITIAL_BACKOFF_SECS: u64 = 1;

/// The sleep before re-checking a rate-limit halt, and the fallback
/// backoff to use after it, all in seconds. With a known reset in the
/// future, sleep until it plus slack (capped), backoff unchanged;
/// otherwise sleep the current backoff and double it (capped).
pub open spec fn rate_limit_sleep_spec(reset: Option<u64>, now: u64, backoff: u64) -> (u64, u64) {
    match reset {
        Some(r) if r > now => {
            let wait = (r - now) + RATE_LIMIT_RESET_SLACK_SECS;
            (if wait < RATE_LIMIT_MAX_SLEEP_SECS { wait as u64 } else { RATE_LIMIT_MAX_SLEEP_SECS }, backoff)
        },
        _ => (backoff, if backoff * 2 < RATE_LIMIT_MAX_SLEEP_SECS { (backoff * 2) as u64 } else { RATE_LIMIT_MAX_SLEEP_SECS }),
    }
}

/// One pacing step of a rate-limit wait, as [`rate_limit_sleep_spec`]
/// defines it; `now` and `reset` are Unix seconds.
pub fn rate_limit_sleep(reset: Option<u64>, now: u64, backoff: u64) -> (r: (u64, u64))
    requires
        backoff <= RATE_LIMIT_MAX_SLEEP_SECS,
    ensures
        r == rate_limit_sleep_spec(reset, now, backoff),
{
    match reset {
        Some(rs) if rs > now => {
            let wait = rs - now;
            let sleep = if wait < RATE_LIMIT_MAX_SLEEP_SECS - RATE_LIMIT_RESET_SLACK_SECS {
                wait + RATE_LIMIT_RESET_SLACK_SECS
            } else {
                RATE_LIMIT_MAX_SLEEP_SECS
            };
            (sleep, backoff)
        },
        _ => {
            let next = if backoff * 2 < RATE_LIMIT_MAX_SLEEP_SECS {
                backoff * 2
            } else {
                RATE_LIMIT_MAX_SLEEP_SECS
            };
            (backoff, next)
        },
    }
}

/// A single sleep never exceeds the cap, and the fallback backoff never
/// exceeds it either, so a stale reset cannot park a worker for long.
pub proof fn law_rate_limit_sleep_bounded(reset: Option<u64>, now: u64, backoff: u64)
    requires
        backoff <= RATE_LIMIT_MAX_SLEEP_SECS,
    ensures
        rate_limit_sleep_spec(reset, now, backoff).0 <= RATE_LIMIT_MAX_SLEEP_SECS,
        rate_limit_sleep_spec(reset, now, backoff).1 <= RATE_LIMIT_MAX_SLEEP_SECS,
        rate_limit_sleep_spec(reset, now, backoff).1 >= backoff,
{
}

/// The pacing of one wait for a rate limit to clear: the fallback backoff
/// used while no reset instant is known. It starts at
/// [`RATE_LIMIT_INITIAL_BACKOFF_SECS`] and never exceeds the cap.
pub struct RateLimitWait {
    backoff: u64,
}

impl RateLimitWait {
    /// The backoff never exceeds the cap.
    #[verifier::type_invariant]
    spec fn capped(self) -> bool {
        self.backoff <= RATE_LIMIT_MAX_SLEEP_SECS
    }

    /// The fallback backoff for the next sleep without a known reset.
    pub closed spec fn spec_backoff(&self) -> u64 {
        self.backoff
    }

    /// A wait that has not slept yet.
    pub fn new() -> (w: Self)
        ensures
            w.spec_backoff() == RATE_LIMIT_INITIAL_BACKOFF_SECS,
    {
        RateLimitWait { backoff: RATE_LIMIT_INITIAL_BACKOFF_SECS }
    }

    /// The limit is still in force: the seconds to sleep before checking
    /// again, given the reset instant when known and the current time
    /// (Unix seconds). The backoff moves on as [`rate_limit_sleep_spec`]
    /// says, so no sleep exceeds the cap however long the wait lasts.
    pub fn next_sleep(&mut self, reset: Option<u64>, now: u64) -> (secs: u64)
        ensures
            (secs, final(self).spec_backoff()) == rate_limit_sleep_spec(
                reset,
                now,
                old(self).spec_backoff(),
            ),
            secs <= RATE_LIMIT_MAX_SLEEP_SECS,
            old(self).spec_backoff() <= final(self).spec_backoff() <= RATE_LIMIT_MAX_SLEEP_SECS,
    {
        proof {
            use_type_invariant(&*self);
        }
        let (secs, next) = rate_limit_sleep(reset, now, self.backoff);
        proof {
            law_rate_limit_sleep_bounded(reset, now, self.backoff);
        }
        self.backoff = next;
        secs
    }
}

/// How an executed job ended, as far as settlement is concerned.
#[derive(Debug, Clone, Copy, PartialEq, Eq, Structural)]
pub enum ExecutionResult {
    /// The executor succeeded and classified the result's charge.
    Succeeded(SettleOutcome),
    /// The executor returned an error or panicked.
    Failed,
}

/// What a regulated worker must do next.
#[derive(Debug, Clone, Copy, PartialEq, Eq, Structural)]
pub enum WorkerAction {
    /// Take the next job from the queue.
    Dequeue,
    /// Ask regulator number `index` (in chain order) for admission.
    Admit(usize),
    /// Run the executor on the job.
    Execute,
    /// Settle the first `count` regulators with `outcome`, then deliver
    /// the job's outcome.
    SettleAndDeliver { count: usize, outcome: SettleOutcome },
    /// Stop the worker.
    Exit,
}

/// Where a regulated worker is in its cycle.
#[derive(Debug, Clone, Copy, PartialEq, Eq, Structural)]
pub enum WorkerPhase {
    /// Waiting for a job.
    Dequeuing,
    /// Walking the regulator chain.
    Admitting,
    /// Running the executor.
    Executing,
    /// Settling and delivering.
    Delivering,
    /// Stopped.
    Stopped,
}

/// The settle outcome for an execution result: a failure is charged.
pub open spec fn settle_outcome_of(r: ExecutionResult) -> SettleOutcome {
    match r {
        ExecutionResult::Succeeded(c) => c,
        ExecutionResult::Failed => SettleOutcome::Charged,
    }
}

/// The admit/execute/settle cycle of a worker driven by an ordered chain
/// of regulators.
pub struct RegulatedWorker {
    regulators: usize,
    admitted: usize,
    phase: WorkerPhase,
}

impl RegulatedWorker {
    /// Length of the regulator chain.
    pub closed spec fn spec_regulators(&self) -> usize {
        self.regulators
    }

    /// Regulators that admitted the current job.
    pub closed spec fn spec_admitted(&self) -> usize {
        self.admitted
    }

    /// Where the worker is.
    pub closed spec fn spec_phase(&self) -> WorkerPhase {
        self.phase
    }

    /// The cycle's invariant: never more admissions than regulators, and
    /// a job is executed and delivered only once every regulator in the
    /// chain admitted it.
    pub open spec fn wf(&self) -> bool {
        &&& self.spec_admitted() <= self.spec_regulators()
        &&& (self.spec_phase() == WorkerPhase::Executing || self.spec_phase() == WorkerPhase::Delivering)
            ==> self.spec_admitted() == self.spec_regulators()
    }

    /// A worker over a chain of `regulators`, about to dequeue.
    pub fn new(regulators: usize) -> (w: Self)
        ensures
            w.wf(),
            w.spec_regulators() == regulators,
            w.spec_admitted() == 0,
            w.spec_phase() == WorkerPhase::Dequeuing,
    {
        RegulatedWorker { regulators, admitted: 0, phase: WorkerPhase::Dequeuing }
    }

    /// Where the worker is in its cycle.
    pub fn phase(&self) -> (p: WorkerPhase)
        ensures
            p == self.spec_phase(),
    {
        self.phase
    }

    /// How many regulators admitted the current job so far.
    pub fn admitted(&self) -> (n: usize)
        ensures
            n == self.spec_admitted(),
    {
        self.admitted
    }

    /// The length of the regulator chain.
    pub fn regulators(&self) -> (n: usize)
        ensures
            n == self.spec_regulators(),
    {
        self.regulators
    }

    /// The queue yielded a job (`true`) or was closed and drained.
    /// A job starts the chain at its first regulator, or goes straight to
    /// the executor when the chain is empty.
    pub fn on_dequeued(&mut self, got_job: bool) -> (a: WorkerAction)
        requires
            old(self).wf(),
            old(self).spec_phase() == WorkerPhase::Dequeuing,
        ensures
            final(self).wf(),
            final(self).spec_regulators() == old(self).spec_regulators(),
            !got_job ==> a == WorkerAction::Exit && final(self).spec_phase() == WorkerPhase::Stopped,
            got_job ==> final(self).spec_admitted() == 0,
            got_job && old(self).spec_regulators() == 0 ==> a == WorkerAction::Execute
                && final(self).spec_phase() == WorkerPhase::Executing,
            got_job && old(self).spec_regulators() > 0 ==> a == WorkerAction::Admit(0)
                && final(self).spec_phase() == WorkerPhase::Admitting,
    {
        if !got_job {
            self.phase = WorkerPhase::Stopped;
            return WorkerAction::Exit;
        }
        self.admitted = 0;
        if self.regulators == 0 {
            self.phase = WorkerPhase::Executing;
            WorkerAction::Execute
        } else {
            self.phase = WorkerPhase::Admitting;
            WorkerAction::Admit(0)
        }
    }

    /// The regulator asked last answered. A cancellation stops the worker
    /// without settling anything; an admission moves on to the next
    /// regulator, or to the executor after the last one.
    pub fn on_admission(&mut self, answer: Admission) -> (a: WorkerAction)
        requires
            old(self).wf(),
            old(self).spec_phase() == WorkerPhase::Admitting,
            old(self).spec_admitted() < old(self).spec_regulators(),
        ensures
            final(self).wf(),
            final(self).spec_regulators() == old(self).spec_regulators(),
            answer == Admission::Cancelled ==> a == WorkerAction::Exit && final(self).spec_phase()
                == WorkerPhase::Stopped,
            answer == Admission::Admitted ==> final(self).spec_admitted() == old(self).spec_admitted() + 1,
            answer == Admission::Admitted && final(self).spec_admitted() < old(self).spec_regulators()
                ==> a == WorkerAction::Admit(final(self).spec_admitted()) && final(self).spec_phase()
                == WorkerPhase::Admitting,
            answer == Admission::Admitted && final(self).spec_admitted() == old(self).spec_regulators()
                ==> a == WorkerAction::Execute && final(self).spec_phase() == WorkerPhase::Executing,
    {
        match answer {
            Admission::Cancelled => {
                self.phase = WorkerPhase::Stopped;
                WorkerAction::Exit
            },
            Admission::Admitted => {
                self.admitted = self.admitted + 1;
                if self.admitted < self.regulators {
                    WorkerAction::Admit(self.admitted)
                } else {
                    self.phase = WorkerPhase::Executing;
                    WorkerAction::Execute
                }
            },
        }
    }

    /// The executor finished: every regulator that admitted the job is
    /// settled with the job's charge (a failure is charged).
    pub fn on_executed(&mut self, result: ExecutionResult) -> (a: WorkerAction)
        requires
            old(self).wf(),
            old(self).spec_phase() == WorkerPhase::Executing,
        ensures
            final(self).wf(),
            final(self).spec_regulators() == old(self).spec_regulators(),
            final(self).spec_admitted() == old(self).spec_admitted(),
            a == (WorkerAction::SettleAndDeliver {
                count: old(self).spec_regulators(),
                outcome: settle_outcome_of(result),
            }),
            final(self).spec_phase() == WorkerPhase::Delivering,
    {
        self.phase = WorkerPhase::Delivering;
        let outcome = match result {
            ExecutionResult::Succeeded(c) => c,
            ExecutionResult::Failed => SettleOutcome::Charged,
        };
        WorkerAction::SettleAndDeliver { count: self.admitted, outcome }
    }

    /// The outcome was delivered (`true`) or the outcome channel is
    /// closed, which stops the worker.
    pub fn on_delivered(&mut self, delivered: bool) -> (a: WorkerAction)
        requires
            old(self).wf(),
            old(self).spec_phase() == WorkerPhase::Delivering,
        ensures
            final(self).wf(),
            final(self).spec_regulators() == old(self).spec_regulators(),
            delivered ==> a == WorkerAction::Dequeue && final(self).spec_phase() == WorkerPhase::Dequeuing,
            !delivered ==> a == WorkerAction::Exit && final(self).spec_phase() == WorkerPhase::Stopped,
    {
        if delivered {
            self.phase = WorkerPhase::Dequeuing;
            WorkerAction::Dequeue
        } else {
            self.phase = WorkerPhase::Stopped;
            WorkerAction::Exit
        }
    }
}


/// What a budgeted worker must do next.
#[derive(Debug, Clone, Copy, PartialEq, Eq, Structural)]
pub enum BudgetedAction {
    /// Take the next job from the queue.
    Dequeue,
    /// Acquire one permit from the budget gate.
    AcquireBudget,
    /// Read whether the rate limit currently halts work.
    CheckRateLimit,
    /// Wait for the rate limit to reset.
    WaitRateLimit,
    /// Run the executor on the job.
    Execute,
    /// Deliver the job's outcome.
    Deliver,
    /// Stop the worker.
    Exit,
}

/// The cycle of a worker gated by a budget and a rate limit: dequeue,
/// acquire a permit, clear the rate limit, execute, deliver. Any refusal
/// (queue closed, cancellation, outcome channel closed) stops it.
pub struct BudgetedWorker {
    next: BudgetedAction,
    permit: bool,
    rate_clear: bool,
}

impl BudgetedWorker {
    /// The step the worker is waiting to take.
    pub closed spec fn spec_next(&self) -> BudgetedAction {
        self.next
    }

    /// The current job holds a budget permit.
    pub closed spec fn spec_permit(&self) -> bool {
        self.permit
    }

    /// The rate limit was found clear for the current job.
    pub closed spec fn spec_rate_clear(&self) -> bool {
        self.rate_clear
    }

    /// Execution is only ever asked for a job that holds a permit and
    /// found the rate limit clear.
    pub open spec fn wf(&self) -> bool {
        (self.spec_next() == BudgetedAction::Execute || self.spec_next() == BudgetedAction::Deliver)
            ==> self.spec_permit() && self.spec_rate_clear()
    }

    /// A worker about to dequeue.
    pub fn new() -> (w: Self)
        ensures
            w.wf(),
            w.spec_next() == BudgetedAction::Dequeue,
    {
        BudgetedWorker { next: BudgetedAction::Dequeue, permit: false, rate_clear: false }
    }

    /// The step the worker is waiting to take.
    pub fn next(&self) -> (a: BudgetedAction)
        ensures
            a == self.spec_next(),
    {
        self.next
    }

    /// The queue answered: a job, or `None` once it is closed and drained.
    pub fn on_dequeued(&mut self, got_job: bool) -> (a: BudgetedAction)
        requires
            old(self).wf(),
            old(self).spec_next() == BudgetedAction::Dequeue,
        ensures
            final(self).wf(),
            a == final(self).spec_next(),
            a == (if got_job {
                BudgetedAction::AcquireBudget
            } else {
                BudgetedAction::Exit
            }),
            !final(self).spec_permit() && !final(self).spec_rate_clear(),
    {
        self.permit = false;
        self.rate_clear = false;
        self.next = if got_job {
            BudgetedAction::AcquireBudget
        } else {
            BudgetedAction::Exit
        };
        self.next
    }

    /// The budget gate answered: a permit, or `false` when the epoch did
    /// not reopen (cancellation or no replenished ceiling).
    pub fn on_budget(&mut self, granted: bool) -> (a: BudgetedAction)
        requires
            old(self).wf(),
            old(self).spec_next() == BudgetedAction::AcquireBudget,
        ensures
            final(self).wf(),
            a == final(self).spec_next(),
            a == (if granted {
                BudgetedAction::CheckRateLimit
            } else {
                BudgetedAction::Exit
            }),
            final(self).spec_permit() == granted,
            !final(self).spec_rate_clear(),
    {
        self.permit = granted;
        self.rate_clear = false;
        self.next = if granted {
            BudgetedAction::CheckRateLimit
        } else {
            BudgetedAction::Exit
        };
        self.next
    }

    /// The rate limit was read: halted or clear.
    pub fn on_rate_limit(&mut self, halted: bool) -> (a: BudgetedAction)
        requires
            old(self).wf(),
            old(self).spec_next() == BudgetedAction::CheckRateLimit,
            old(self).spec_permit(),
        ensures
            final(self).wf(),
            a == final(self).spec_next(),
            a == (if halted {
                BudgetedAction::WaitRateLimit
            } else {
                BudgetedAction::Execute
            }),
            final(self).spec_permit(),
            final(self).spec_rate_clear() == !halted,
    {
        self.rate_clear = !halted;
        self.next = if halted {
            BudgetedAction::WaitRateLimit
        } else {
            BudgetedAction::Execute
        };
        self.next
    }

    /// The rate-limit wait ended: reset, or cancelled.
    pub fn on_rate_limit_wait(&mut self, reset: bool) -> (a: BudgetedAction)
        requires
            old(self).wf(),
            old(self).spec_next() == BudgetedAction::WaitRateLimit,
            old(self).spec_permit(),
        ensures
            final(self).wf(),
            a == final(self).spec_next(),
            a == (if reset {
                BudgetedAction::Execute
            } else {
                BudgetedAction::Exit
            }),
            final(self).spec_permit(),
            final(self).spec_rate_clear() == reset,
    {
        self.rate_clear = reset;
        self.next = if reset {
            BudgetedAction::Execute
        } else {
            BudgetedAction::Exit
        };
        self.next
    }

    /// The executor finished (successfully, with an error, or by panic).
    pub fn on_executed(&mut self) -> (a: BudgetedAction)
        requires
            old(self).wf(),
            old(self).spec_next() == BudgetedAction::Execute,
        ensures
            final(self).wf(),
            a == final(self).spec_next(),
            a == BudgetedAction::Deliver,
            final(self).spec_permit() && final(self).spec_rate_clear(),
    {
        self.next = BudgetedAction::Deliver;
        self.next
    }

    /// The outcome was delivered, or the outcome channel is closed.
    pub fn on_delivered(&mut self, delivered: bool) -> (a: BudgetedAction)
        requires
            old(self).wf(),
            old(self).spec_next() == BudgetedAction::Deliver,
        ensures
            final(self).wf(),
            a == final(self).spec_next(),
            a == (if delivered {
                BudgetedAction::Dequeue
            } else {
                BudgetedAction::Exit
            }),
    {
        self.next = if delivered {
            BudgetedAction::Dequeue
        } else {
            BudgetedAction::Exit
        };
        self.next
    }
}

} // verus!
