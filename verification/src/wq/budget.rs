//! API call budget gate.
//!
//! A self-imposed limit on the number of calls per epoch. When the limit
//! is reached exactly one caller is elected to run the epoch transition
//! (a fixed cooldown, or a replenish policy that reports the next
//! ceiling) while the others wait; a successful transition resets the
//! epoch counter. The transition can also fail closed, leaving the
//! counter and ceiling where they were.
//!
//! [`BudgetGate`] holds the counters and takes every decision; the
//! caller that shares it between tasks performs the waits it asks for.
use std::time::Duration;

use vstd::prelude::*;

use crate::wq::regulator::SettleOutcome;

verus! {

/// A paired reading of one epoch's call count and ceiling.
#[derive(Debug, Clone, Copy, PartialEq, Eq, Structural)]
pub struct EpochUsage {
    /// Calls made in the current epoch at the moment of the read.
    pub calls_made: u64,
    /// The per-epoch ceiling in force at the moment of the read.
    pub epoch_limit: u64,
}

/// The counters of a budget gate.
pub struct BudgetView {
    /// Calls made in the current epoch.
    pub calls: u64,
    /// Calls granted over this gate's whole life (wrapping).
    pub total: u64,
    /// The per-epoch ceiling.
    pub limit: u64,
    /// Whether a caller holds the election for the epoch transition.
    pub resetting: bool,
}

/// What a caller asking for a permit must do next.
#[derive(Debug, Clone, Copy, PartialEq, Eq, Structural)]
pub enum AcquireStep {
    /// A permit was granted.
    Granted,
    /// The epoch is exhausted and this caller was elected to run the
    /// transition; it must later call [`BudgetGate::finish_transition`]
    /// or [`BudgetGate::abandon_transition`].
    Elected,
    /// The epoch is exhausted and another caller runs the transition;
    /// wait until it completes, then ask again.
    Wait,
}

/// How the elected caller's epoch transition ended.
#[derive(Debug, Clone, Copy, PartialEq, Eq, Structural)]
pub enum EpochOutcome {
    /// A replenish policy reported this (non-zero) ceiling.
    Replenished(u64),
    /// The fixed cooldown elapsed with no policy attached.
    CooldownElapsed,
    /// Cancellation fired during the transition.
    Cancelled,
    /// The policy reported no authoritative ceiling.
    Unavailable,
}

/// What a replenish policy reports at an epoch transition.
#[derive(Debug, Clone, Copy, PartialEq, Eq, Structural)]
pub enum Replenished {
    /// The guarded resource has replenished; resume the next epoch with
    /// this ceiling, which is never zero.
    Ceiling(u64),
    /// Cancellation fired while the policy was waiting.
    Cancelled,
    /// The policy could not establish a replenished ceiling; this gate
    /// fails closed rather than resuming on a stale ceiling.
    Unavailable,
}

impl Replenished {
    /// A reported ceiling is never zero.
    pub open spec fn wf(self) -> bool {
        self matches Replenished::Ceiling(c) ==> c > 0
    }

    /// The epoch-transition outcome this report stands for.
    pub open spec fn outcome_spec(self) -> EpochOutcome {
        match self {
            Replenished::Ceiling(c) => EpochOutcome::Replenished(c),
            Replenished::Cancelled => EpochOutcome::Cancelled,
            Replenished::Unavailable => EpochOutcome::Unavailable,
        }
    }

    /// How a transition that consulted a replenish policy ended: a
    /// ceiling reopens the epoch with it, anything else fails closed.
    pub fn epoch_outcome(self) -> (o: EpochOutcome)
        requires
            self.wf(),
        ensures
            o == self.outcome_spec(),
            o matches EpochOutcome::Replenished(c) ==> c > 0,
    {
        match self {
            Replenished::Ceiling(c) => EpochOutcome::Replenished(c),
            Replenished::Cancelled => EpochOutcome::Cancelled,
            Replenished::Unavailable => EpochOutcome::Unavailable,
        }
    }
}

/// `x + 1`, wrapping to 0 past `u64::MAX`.
pub open spec fn wrapping_inc(x: u64) -> u64 {
    if x == u64::MAX {
        0
    } else {
        (x + 1) as u64
    }
}

/// The state after one permit request, and what the caller must do.
pub open spec fn acquire_spec(v: BudgetView) -> (BudgetView, AcquireStep) {
    if v.calls < v.limit {
        (BudgetView { calls: (v.calls + 1) as u64, total: wrapping_inc(v.total), ..v }, AcquireStep::Granted)
    } else if !v.resetting {
        (BudgetView { resetting: true, ..v }, AcquireStep::Elected)
    } else {
        (v, AcquireStep::Wait)
    }
}

/// Whether a transition with this outcome reopens the epoch.
pub open spec fn reopens(o: EpochOutcome) -> bool {
    o is Replenished || o is CooldownElapsed
}

/// The state after the elected caller's transition ended with `o`: the
/// election is released; a replenish applies the new ceiling and resets
/// the counter as one step; an elapsed cooldown resets the counter; a
/// cancelled or unavailable transition moves nothing.
pub open spec fn finish_spec(v: BudgetView, o: EpochOutcome) -> BudgetView {
    match o {
        EpochOutcome::Replenished(c) => BudgetView { calls: 0, limit: c, resetting: false, ..v },
        EpochOutcome::CooldownElapsed => BudgetView { calls: 0, resetting: false, ..v },
        _ => BudgetView { resetting: false, ..v },
    }
}

/// The state after a refund: one permit back, saturating at zero.
pub open spec fn refund_spec(v: BudgetView) -> BudgetView {
    BudgetView { calls: if v.calls == 0 { 0 } else { (v.calls - 1) as u64 }, ..v }
}

/// A budget gate that limits the number of calls per epoch.
pub struct BudgetGate {
    calls: u64,
    total_calls: u64,
    limit: u64,
    wait_duration: Duration,
    resetting: bool,
}

impl BudgetGate {
    /// This gate's counters.
    pub closed spec fn view(&self) -> BudgetView {
        BudgetView {
            calls: self.calls,
            total: self.total_calls,
            limit: self.limit,
            resetting: self.resetting,
        }
    }

    /// The fixed cooldown used when no replenish policy is attached.
    pub closed spec fn spec_wait_duration(&self) -> Duration {
        self.wait_duration
    }

    /// The ceiling is never zero.
    #[verifier::type_invariant]
    spec fn limit_positive(self) -> bool {
        self.limit > 0
    }

    /// Create a new budget gate with a per-epoch `limit` and a fixed
    /// cooldown. A zero limit would cause endless epoch transitions and
    /// is not accepted.
    pub fn new(limit: u64, wait_duration: Duration) -> (g: Self)
        requires
            limit > 0,
        ensures
            g.view() == (BudgetView { calls: 0, total: 0, limit, resetting: false }),
            g.spec_wait_duration() == wait_duration,
    {
        BudgetGate { calls: 0, total_calls: 0, limit, wait_duration, resetting: false }
    }

    /// The fixed cooldown.
    pub fn wait_duration(&self) -> (d: Duration)
        ensures
            d == self.spec_wait_duration(),
    {
        self.wait_duration
    }

    /// Ask for one permit: granted while the epoch has room, else the
    /// first caller is elected to run the epoch transition and later ones
    /// wait for it. The counter never moves past the ceiling.
    pub fn try_acquire(&mut self) -> (step: AcquireStep)
        ensures
            (final(self).view(), step) == acquire_spec(old(self).view()),
            final(self).spec_wait_duration() == old(self).spec_wait_duration(),
    {
        proof {
            use_type_invariant(&*self);
        }
        if self.calls < self.limit {
            self.calls = self.calls + 1;
            self.total_calls = if self.total_calls == u64::MAX {
                0
            } else {
                self.total_calls + 1
            };
            AcquireStep::Granted
        } else if !self.resetting {
            self.resetting = true;
            AcquireStep::Elected
        } else {
            AcquireStep::Wait
        }
    }

    /// Record how the elected caller's epoch transition ended and release
    /// the election. Returns whether the epoch reopened; `false` means
    /// the caller must exit rather than resume on a stale ceiling.
    pub fn finish_transition(&mut self, outcome: EpochOutcome) -> (reopened: bool)
        requires
            outcome matches EpochOutcome::Replenished(c) ==> c > 0,
        ensures
            final(self).view() == finish_spec(old(self).view(), outcome),
            reopened == reopens(outcome),
            final(self).spec_wait_duration() == old(self).spec_wait_duration(),
    {
        proof {
            use_type_invariant(&*self);
        }
        self.resetting = false;
        match outcome {
            EpochOutcome::Replenished(c) => {
                self.limit = c;
                self.calls = 0;
                true
            },
            EpochOutcome::CooldownElapsed => {
                self.calls = 0;
                true
            },
            EpochOutcome::Cancelled => false,
            EpochOutcome::Unavailable => false,
        }
    }

    /// Release the election without moving the counter or the ceiling:
    /// the elected caller unwound or was dropped mid-transition, and a
    /// successor must be able to run it.
    pub fn abandon_transition(&mut self)
        ensures
            final(self).view() == (BudgetView { resetting: false, ..old(self).view() }),
            final(self).spec_wait_duration() == old(self).spec_wait_duration(),
    {
        proof {
            use_type_invariant(&*self);
        }
        self.resetting = false;
    }

    /// Change the per-epoch limit. The counter is left alone, so a lower
    /// limit takes effect once the counter reaches it or the epoch resets.
    pub fn set_epoch_limit(&mut self, limit: u64)
        requires
            limit > 0,
        ensures
            final(self).view() == (BudgetView { limit, ..old(self).view() }),
            final(self).spec_wait_duration() == old(self).spec_wait_duration(),
    {
        self.limit = limit;
    }

    /// Number of calls made in the current epoch.
    pub fn calls_made(&self) -> (n: u64)
        ensures
            n == self.view().calls,
    {
        self.calls
    }

    /// Cumulative number of calls granted across all epochs.
    pub fn total_calls_made(&self) -> (n: u64)
        ensures
            n == self.view().total,
    {
        self.total_calls
    }

    /// The current epoch's call count and ceiling.
    pub fn epoch_usage(&self) -> (u: EpochUsage)
        ensures
            u == (EpochUsage { calls_made: self.view().calls, epoch_limit: self.view().limit }),
            u.epoch_limit > 0,
    {
        proof {
            use_type_invariant(self);
        }
        EpochUsage { calls_made: self.calls, epoch_limit: self.limit }
    }

    /// Refund one previously granted permit to the current epoch, for a
    /// call that turned out not to count against the guarded resource.
    /// Saturates at zero; the cumulative total is unaffected.
    pub fn refund(&mut self)
        ensures
            final(self).view() == refund_spec(old(self).view()),
            final(self).spec_wait_duration() == old(self).spec_wait_duration(),
    {
        proof {
            use_type_invariant(&*self);
        }
        if self.calls > 0 {
            self.calls = self.calls - 1;
        }
    }

    /// Settle a job admitted through this gate: a free call gives its
    /// permit back, a charged one keeps it.
    pub fn settle(&mut self, outcome: SettleOutcome)
        ensures
            final(self).view() == (if outcome == SettleOutcome::Free {
                refund_spec(old(self).view())
            } else {
                old(self).view()
            }),
            final(self).spec_wait_duration() == old(self).spec_wait_duration(),
    {
        if outcome == SettleOutcome::Free {
            self.refund();
        }
    }
}

/// A granted permit never takes the epoch counter past the ceiling.
pub proof fn law_grant_stays_within_limit(v: BudgetView)
    requires
        acquire_spec(v).1 == AcquireStep::Granted,
    ensures
        acquire_spec(v).0.calls <= v.limit,
        acquire_spec(v).0.limit == v.limit,
{
}

/// While a transition is in progress no second caller is elected.
pub proof fn law_single_election(v: BudgetView)
    requires
        v.resetting,
    ensures
        acquire_spec(v).1 != AcquireStep::Elected,
        acquire_spec(v).0.resetting,
{
}

/// After a transition that reopened the epoch, the next permit request is
/// granted at once.
pub proof fn law_reopened_epoch_admits(v: BudgetView, o: EpochOutcome)
    requires
        v.limit > 0,
        reopens(o),
        o matches EpochOutcome::Replenished(c) ==> c > 0,
    ensures
        acquire_spec(finish_spec(v, o)).1 == AcquireStep::Granted,
{
}

/// A replenish report reopens the epoch exactly when it carries a
/// ceiling, and then the next epoch starts from zero under that ceiling;
/// a cancelled or unavailable report leaves counter and ceiling as they
/// were.
pub proof fn law_replenish_reopens_only_on_ceiling(v: BudgetView, r: Replenished)
    requires
        r.wf(),
    ensures
        reopens(r.outcome_spec()) <==> r is Ceiling,
        r matches Replenished::Ceiling(c) ==> finish_spec(v, r.outcome_spec()).calls == 0
            && finish_spec(v, r.outcome_spec()).limit == c,
        !(r is Ceiling) ==> finish_spec(v, r.outcome_spec()).calls == v.calls
            && finish_spec(v, r.outcome_spec()).limit == v.limit,
{
}

/// A transition that failed closed (cancelled or unavailable) moves
/// neither the counter, the ceiling nor the total; it only releases the
/// election.
pub proof fn law_failed_transition_moves_nothing(v: BudgetView, o: EpochOutcome)
    requires
        !reopens(o),
    ensures
        finish_spec(v, o).calls == v.calls,
        finish_spec(v, o).limit == v.limit,
        finish_spec(v, o).total == v.total,
        !finish_spec(v, o).resetting,
{
}

/// Refunds never take the counter below zero and never touch the
/// cumulative total; a refund after a grant restores the epoch counter.
pub proof fn law_refund_undoes_grant(v: BudgetView)
    requires
        acquire_spec(v).1 == AcquireStep::Granted,
    ensures
        refund_spec(acquire_spec(v).0).calls == v.calls,
        refund_spec(acquire_spec(v).0).total == acquire_spec(v).0.total,
        refund_spec(v).calls <= v.calls,
{
}

/// Only a granted permit moves the cumulative total, by exactly one
/// (wrapping); transitions, refunds and limit changes leave it alone.
pub proof fn law_total_counts_grants(v: BudgetView, o: EpochOutcome)
    ensures
        acquire_spec(v).1 == AcquireStep::Granted ==> acquire_spec(v).0.total == wrapping_inc(
            v.total,
        ),
        acquire_spec(v).1 != AcquireStep::Granted ==> acquire_spec(v).0.total == v.total,
        finish_spec(v, o).total == v.total,
        refund_spec(v).total == v.total,
{
}

/// The state after `k` refunds in a row.
pub open spec fn refunds_spec(v: BudgetView, k: nat) -> BudgetView
    decreases k,
{
    if k == 0 {
        v
    } else {
        refund_spec(refunds_spec(v, (k - 1) as nat))
    }
}

/// `k` refunds in a row give back `k` permits, saturating at zero: the
/// epoch counter drops to `calls - k` or to zero, and the cumulative total,
/// the ceiling and the transition flag stay as they were.
pub proof fn law_refunds_saturate(v: BudgetView, k: nat)
    ensures
        refunds_spec(v, k).calls == (if v.calls >= k { v.calls - k } else { 0 }),
        refunds_spec(v, k).total == v.total,
        refunds_spec(v, k).limit == v.limit,
        refunds_spec(v, k).resetting == v.resetting,
    decreases k,
{
    if k > 0 {
        law_refunds_saturate(v, (k - 1) as nat);
    }
}

} // verus!
