//! Server-authoritative pause-until-instant regulator.
//!
//! [`BackoffRegulator`] parks admission until a caller-supplied resume
//! instant, then admits. The armed instant is kept as a nanosecond
//! offset from the regulator's creation and only ever moves forward: an
//! earlier resume instant than the armed one is a no-op, so a
//! server-authoritative wait is never shortened.
use std::time::{Duration, Instant};

use vstd::prelude::*;

verus! {

/// `std::time::Instant`, carried opaquely.
#[verifier::external_type_specification]
#[verifier::external_body]
pub struct ExInstant(Instant);

/// The current instant.
///
/// Calls `Instant::now`; nothing is claimed of the result, which depends
/// on the clock.
#[verifier::external_body]
fn instant_now() -> Instant {
    Instant::now()
}

/// What `later.saturating_duration_since(earlier)` gives: the time from
/// `earlier` to `later`, zero if `later` is not after it.
pub uninterp spec fn duration_since(later: Instant, earlier: Instant) -> Duration;

/// What `d.as_nanos()` gives: the whole nanoseconds of `d`.
pub uninterp spec fn nanos_of(d: Duration) -> u128;

/// What `Duration::from_nanos(nanos)` gives.
pub uninterp spec fn duration_from(nanos: u64) -> Duration;

/// What `base.checked_add(d)` gives: `base + d`, or `None` when that
/// instant is not representable.
pub uninterp spec fn instant_plus(base: Instant, d: Duration) -> Option<Instant>;

/// The time from `earlier` to `later`, zero if `later` is not after it.
///
/// Calls `Instant::saturating_duration_since`; the result is named
/// `duration_since` of the two instants, which it depends on alone.
#[verifier::external_body]
fn saturating_duration_since(later: Instant, earlier: Instant) -> (d: Duration)
    ensures
        d == duration_since(later, earlier),
{
    later.saturating_duration_since(earlier)
}

/// The most whole nanoseconds a `Duration` holds: `u64::MAX` seconds
/// and 999 999 999 nanoseconds.
pub open spec fn max_duration_nanos() -> u128 {
    ((u64::MAX as u128) * 1_000_000_000 + 999_999_999) as u128
}

/// The whole nanoseconds of `d`.
///
/// Calls `Duration::as_nanos`. The result is named `nanos_of(d)`; its
/// range is what the documentation gives: whole seconds are a `u64` and
/// the sub-second nanoseconds are below one billion.
#[verifier::external_body]
fn duration_as_nanos(d: Duration) -> (n: u128)
    ensures
        n == nanos_of(d),
        n <= max_duration_nanos(),
{
    d.as_nanos()
}

/// A duration of `nanos` nanoseconds.
///
/// Calls `Duration::from_nanos`. The result is named `duration_from(nanos)`,
/// and, as the documentation says, it holds exactly `nanos` nanoseconds.
#[verifier::external_body]
fn duration_from_nanos(nanos: u64) -> (d: Duration)
    ensures
        d == duration_from(nanos),
        nanos_of(d) == nanos as u128,
{
    Duration::from_nanos(nanos)
}

/// `base + d`, or `None` when that instant is not representable.
///
/// Calls `Instant::checked_add`; the result is named `instant_plus` of
/// the two arguments, which it depends on alone.
#[verifier::external_body]
fn instant_checked_add(base: Instant, d: Duration) -> (r: Option<Instant>)
    ensures
        r == instant_plus(base, d),
{
    base.checked_add(d)
}

/// The offset of `at` from `origin` in nanoseconds, zero when `at` is not
/// later: what `set_backoff` arms and `offset_of` measures.
pub open spec fn offset_from(at: Instant, origin: Instant) -> u128 {
    nanos_of(duration_since(at, origin))
}

/// The armed offset after arming at `offset` nanoseconds: saturated to
/// `u64::MAX`, and never below the offset already armed.
pub open spec fn armed_after(current: u64, offset: u128) -> u64 {
    let requested: u64 = if offset > u64::MAX as u128 {
        u64::MAX
    } else {
        offset as u64
    };
    if requested > current {
        requested
    } else {
        current
    }
}

/// How long admission must still wait, in nanoseconds from `now`, or
/// `None` to admit at once: an unarmed regulator (offset 0) and a resume
/// instant already reached both admit.
pub open spec fn wait_before_admit(armed: u64, now: u128) -> Option<u128> {
    if armed == 0 || now >= armed as u128 {
        None
    } else {
        Some((armed as u128 - now) as u128)
    }
}

/// Regulator that pauses admission until a caller-supplied resume
/// instant, then admits. It has no charge concept, so settling is a
/// no-op.
pub struct BackoffRegulator {
    origin: Instant,
    resume_at_nanos: u64,
}

impl BackoffRegulator {
    /// The armed offset from creation, in nanoseconds; 0 when unarmed.
    pub closed spec fn armed(&self) -> u64 {
        self.resume_at_nanos
    }

    /// The instant offsets are measured from.
    pub closed spec fn origin(&self) -> Instant {
        self.origin
    }

    /// Construct an unarmed regulator (admits immediately until armed).
    pub fn new() -> (r: Self)
        ensures
            r.armed() == 0,
    {
        BackoffRegulator { origin: instant_now(), resume_at_nanos: 0 }
    }

    /// Arm (or extend) the pause to `offset_nanos` after creation. An
    /// offset earlier than the armed one is a no-op.
    pub fn set_backoff_offset(&mut self, offset_nanos: u128)
        ensures
            final(self).armed() == armed_after(old(self).armed(), offset_nanos),
            final(self).origin() == old(self).origin(),
    {
        let requested: u64 = if offset_nanos > u64::MAX as u128 {
            u64::MAX
        } else {
            offset_nanos as u64
        };
        if requested > self.resume_at_nanos {
            self.resume_at_nanos = requested;
        }
    }

    /// Arm (or extend) the pause: admission blocks until `resume_at`.
    /// The offset of `resume_at` from creation (zero when it is not
    /// later) is armed as [`Self::set_backoff_offset`] does.
    pub fn set_backoff(&mut self, resume_at: Instant)
        ensures
            final(self).armed() == armed_after(
                old(self).armed(),
                offset_from(resume_at, old(self).origin()),
            ),
            final(self).armed() >= old(self).armed(),
            final(self).origin() == old(self).origin(),
    {
        let offset = duration_as_nanos(saturating_duration_since(resume_at, self.origin));
        self.set_backoff_offset(offset);
    }

    /// The armed offset from creation in nanoseconds, or `None` when
    /// unarmed.
    pub fn resume_at_offset(&self) -> (r: Option<u64>)
        ensures
            r == (if self.armed() == 0 {
                None
            } else {
                Some(self.armed())
            }),
    {
        if self.resume_at_nanos == 0 {
            None
        } else {
            Some(self.resume_at_nanos)
        }
    }

    /// The currently-armed resume instant, or `None` if unarmed (or if
    /// creation plus the armed offset is not representable).
    pub fn resume_at(&self) -> (r: Option<Instant>)
        ensures
            r == (if self.armed() == 0 {
                None
            } else {
                instant_plus(self.origin(), duration_from(self.armed()))
            }),
    {
        match self.resume_at_offset() {
            None => None,
            Some(n) => instant_checked_add(self.origin, duration_from_nanos(n)),
        }
    }

    /// Whether admission may proceed `now_nanos` after creation, and if
    /// not, how many nanoseconds remain.
    pub fn wait_before_admit(&self, now_nanos: u128) -> (r: Option<u128>)
        ensures
            r == wait_before_admit(self.armed(), now_nanos),
    {
        if self.resume_at_nanos == 0 || now_nanos >= self.resume_at_nanos as u128 {
            None
        } else {
            Some(self.resume_at_nanos as u128 - now_nanos)
        }
    }

    /// Nanoseconds from creation to `now` (zero when `now` is not later),
    /// the measure [`Self::set_backoff`] arms with and
    /// [`Self::wait_before_admit`] compares against.
    pub fn offset_of(&self, now: Instant) -> (n: u128)
        ensures
            n == offset_from(now, self.origin()),
            n <= max_duration_nanos(),
    {
        duration_as_nanos(saturating_duration_since(now, self.origin))
    }
}

impl Default for BackoffRegulator {
    fn default() -> (r: Self)
        ensures
            r.armed() == 0,
    {
        BackoffRegulator::new()
    }
}

/// The armed instant never regresses: arming never lowers it, and it
/// ends at least at the requested offset (saturated).
pub proof fn law_backoff_never_shortens(current: u64, offset: u128)
    ensures
        armed_after(current, offset) >= current,
        armed_after(current, offset) as u128 >= (if offset > u64::MAX as u128 {
            u64::MAX as u128
        } else {
            offset
        }),
{
}

/// Arming is order-independent: two arms in either order leave the
/// later of the two offsets armed.
pub proof fn law_backoff_order_independent(current: u64, a: u128, b: u128)
    ensures
        armed_after(armed_after(current, a), b) == armed_after(armed_after(current, b), a),
{
}

/// Once the armed instant is reached, admission proceeds; before it,
/// the wait ends exactly at the armed instant.
pub proof fn law_admit_at_resume(armed: u64, now: u128)
    requires
        armed > 0,
    ensures
        now >= armed as u128 ==> wait_before_admit(armed, now) is None,
        now < armed as u128 ==> wait_before_admit(armed, now) == Some((armed as u128 - now) as u128),
{
}

} // verus!
