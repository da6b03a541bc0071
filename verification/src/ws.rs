//! Decisions of the WebSocket live-update sessions.
//!
//! A session alternates between waiting (for a client frame, a broadcast
//! update, a ping tick or the pong deadline) and sending; the waiting
//! and sending are done by the caller, which reports each event here and
//! performs the action it gets back. Instants are nanosecond offsets on
//! the caller's monotonic clock.
use vstd::prelude::*;

verus! {

/// Seconds between server pings.
pub const WS_PING_INTERVAL_SECS: u64 = 30;

/// Seconds a client has to answer a ping.
pub const WS_PONG_DEADLINE_SECS: u64 = 10;

/// Upper bound on one send, in nanoseconds (5 s).
pub const WS_SEND_TIMEOUT_NANOS: u64 = 5_000_000_000;

/// Close code sent when a client lagged behind the broadcast buffer.
pub const WS_CLOSE_GOING_AWAY: u16 = 1001;

/// `a + b`, saturating at `u64::MAX`.
pub open spec fn sat_add(a: u64, b: u64) -> u64 {
    if a + b > u64::MAX {
        u64::MAX
    } else {
        (a + b) as u64
    }
}

/// Ping/pong keepalive bookkeeping: the deadline by which the client must
/// answer the outstanding ping, if any.
#[derive(Debug)]
pub struct KeepaliveState {
    pong_deadline: Option<u64>,
    pong_duration: u64,
}

impl KeepaliveState {
    /// The outstanding pong deadline.
    pub closed spec fn spec_deadline(&self) -> Option<u64> {
        self.pong_deadline
    }

    /// How long a client has to answer a ping.
    pub closed spec fn spec_pong_duration(&self) -> u64 {
        self.pong_duration
    }

    /// Whether the outstanding deadline has passed at `now`.
    pub open spec fn expired_at(&self, now: u64) -> bool {
        match self.spec_deadline() {
            Some(d) => now >= d,
            None => false,
        }
    }

    /// No ping outstanding.
    pub fn new(pong_duration: u64) -> (s: Self)
        ensures
            s.spec_deadline() is None,
            s.spec_pong_duration() == pong_duration,
    {
        KeepaliveState { pong_deadline: None, pong_duration }
    }

    /// A ping went out at `now`: the client must answer by the returned
    /// deadline.
    pub fn arm_ping(&mut self, now: u64) -> (deadline: u64)
        ensures
            deadline == sat_add(now, old(self).spec_pong_duration()),
            final(self).spec_deadline() == Some(deadline),
            final(self).spec_pong_duration() == old(self).spec_pong_duration(),
    {
        let deadline = now.saturating_add(self.pong_duration);
        self.pong_deadline = Some(deadline);
        deadline
    }

    /// A pong arrived at `now`. Accepted (clearing the deadline) unless
    /// the deadline has already passed; an unsolicited pong is accepted.
    pub fn record_pong(&mut self, now: u64) -> (accepted: bool)
        ensures
            accepted == !old(self).expired_at(now),
            accepted ==> final(self).spec_deadline() is None,
            !accepted ==> final(self).spec_deadline() == old(self).spec_deadline(),
            final(self).spec_pong_duration() == old(self).spec_pong_duration(),
    {
        if self.is_expired(now) {
            return false;
        }
        self.pong_deadline = None;
        true
    }

    /// The outstanding deadline.
    pub fn deadline(&self) -> (d: Option<u64>)
        ensures
            d == self.spec_deadline(),
    {
        self.pong_deadline
    }

    /// Whether the outstanding deadline has passed at `now`.
    pub fn is_expired(&self, now: u64) -> (b: bool)
        ensures
            b == self.expired_at(now),
    {
        match self.pong_deadline {
            Some(deadline) => now >= deadline,
            None => false,
        }
    }
}

/// How long a send may take at `now` given the outstanding pong
/// deadline: `None` when the deadline has already passed (do not send),
/// else the send timeout, shortened to end at the deadline.
pub open spec fn send_budget_spec(deadline: Option<u64>, now: u64) -> Option<u64> {
    match deadline {
        Some(d) => if now >= d {
            None
        } else if ((d - now) as u64) < WS_SEND_TIMEOUT_NANOS {
            Some((d - now) as u64)
        } else {
            Some(WS_SEND_TIMEOUT_NANOS)
        },
        None => Some(WS_SEND_TIMEOUT_NANOS),
    }
}

/// The time a send may take, as [`send_budget_spec`] defines it.
pub fn send_budget(deadline: Option<u64>, now: u64) -> (r: Option<u64>)
    ensures
        r == send_budget_spec(deadline, now),
{
    match deadline {
        Some(d) => {
            if now >= d {
                None
            } else if d - now < WS_SEND_TIMEOUT_NANOS {
                Some(d - now)
            } else {
                Some(WS_SEND_TIMEOUT_NANOS)
            }
        },
        None => Some(WS_SEND_TIMEOUT_NANOS),
    }
}

/// What happened while a session was waiting.
#[derive(Debug, Clone, Copy, PartialEq, Eq, Structural)]
pub enum SessionEvent {
    /// The client answered a ping.
    Pong,
    /// The client sent a close frame.
    ClientClose,
    /// The client stream failed or ended.
    ReceiveEnded,
    /// The client sent some other frame (ignored).
    OtherFrame,
    /// A broadcast update arrived.
    Update,
    /// The session fell behind the broadcast buffer.
    Lagged,
    /// The broadcast channel closed.
    BroadcastClosed,
    /// The ping interval ticked.
    PingTick,
    /// The pong deadline passed.
    DeadlineReached,
}

/// What the session must do next.
#[derive(Debug, Clone, Copy, PartialEq, Eq, Structural)]
pub enum SessionAction {
    /// Keep waiting.
    Continue,
    /// Send the update's payload, then report the outcome.
    Forward,
    /// Send the "reload" signal, then report the outcome.
    SendReload,
    /// Send a ping, then report the outcome.
    SendPing,
    /// Flush the sink and end; no close frame follows.
    FlushAndEnd,
    /// Send a close frame with [`WS_CLOSE_GOING_AWAY`] and end.
    CloseLaggedAndEnd,
    /// End the session, sending a plain close frame first when `close`.
    End { close: bool },
}

/// The projection session's reaction to `event` at `now` while pings are
/// tracked by `keepalive`.
pub open spec fn projection_reaction(deadline: Option<u64>, event: SessionEvent, now: u64) -> SessionAction {
    match event {
        SessionEvent::Pong => {
            let expired = match deadline {
                Some(d) => now >= d,
                None => false,
            };
            if expired {
                SessionAction::End { close: true }
            } else {
                SessionAction::Continue
            }
        },
        SessionEvent::ClientClose => SessionAction::FlushAndEnd,
        SessionEvent::ReceiveEnded => SessionAction::End { close: false },
        SessionEvent::OtherFrame => SessionAction::Continue,
        SessionEvent::Update => SessionAction::Forward,
        SessionEvent::Lagged => SessionAction::CloseLaggedAndEnd,
        SessionEvent::BroadcastClosed => SessionAction::End { close: true },
        SessionEvent::PingTick => if deadline is Some {
            SessionAction::Continue
        } else {
            SessionAction::SendPing
        },
        SessionEvent::DeadlineReached => SessionAction::End { close: true },
    }
}

/// Decide the projection session's reaction to `event` at `now`. A pong
/// is recorded in `keepalive`.
pub fn projection_step(keepalive: &mut KeepaliveState, event: SessionEvent, now: u64) -> (a: SessionAction)
    ensures
        a == projection_reaction(old(keepalive).spec_deadline(), event, now),
        event == SessionEvent::Pong && a == SessionAction::Continue ==> final(keepalive).spec_deadline() is None,
        !(event == SessionEvent::Pong) ==> final(keepalive).spec_deadline() == old(keepalive).spec_deadline(),
        final(keepalive).spec_pong_duration() == old(keepalive).spec_pong_duration(),
{
    match event {
        SessionEvent::Pong => if keepalive.record_pong(now) {
            SessionAction::Continue
        } else {
            SessionAction::End { close: true }
        },
        SessionEvent::ClientClose => SessionAction::FlushAndEnd,
        SessionEvent::ReceiveEnded => SessionAction::End { close: false },
        SessionEvent::OtherFrame => SessionAction::Continue,
        SessionEvent::Update => SessionAction::Forward,
        SessionEvent::Lagged => SessionAction::CloseLaggedAndEnd,
        SessionEvent::BroadcastClosed => SessionAction::End { close: true },
        SessionEvent::PingTick => if keepalive.deadline().is_some() {
            SessionAction::Continue
        } else {
            SessionAction::SendPing
        },
        SessionEvent::DeadlineReached => SessionAction::End { close: true },
    }
}

/// After a send of the projection session: a failed send ends the
/// session without a further close frame; a ping that went out at `now`
/// arms the pong deadline.
pub fn projection_after_send(keepalive: &mut KeepaliveState, was_ping: bool, sent: bool, now: u64) -> (a: SessionAction)
    ensures
        !sent ==> a == (SessionAction::End { close: false }),
        sent ==> a == SessionAction::Continue,
        sent && was_ping ==> final(keepalive).spec_deadline() == Some(sat_add(now, old(keepalive).spec_pong_duration())),
        !(sent && was_ping) ==> final(keepalive).spec_deadline() == old(keepalive).spec_deadline(),
        final(keepalive).spec_pong_duration() == old(keepalive).spec_pong_duration(),
{
    if !sent {
        return SessionAction::End { close: false };
    }
    if was_ping {
        keepalive.arm_ping(now);
    }
    SessionAction::Continue
}

/// The serve session's reaction to `event` while a pong is (or is not)
/// awaited.
pub open spec fn serve_reaction(awaiting_pong: bool, event: SessionEvent) -> SessionAction {
    match event {
        SessionEvent::Pong => SessionAction::Continue,
        SessionEvent::ClientClose => SessionAction::End { close: true },
        SessionEvent::ReceiveEnded => SessionAction::End { close: true },
        SessionEvent::OtherFrame => SessionAction::Continue,
        SessionEvent::Update => SessionAction::Forward,
        SessionEvent::Lagged => SessionAction::SendReload,
        SessionEvent::BroadcastClosed => SessionAction::End { close: true },
        SessionEvent::PingTick => if awaiting_pong {
            SessionAction::Continue
        } else {
            SessionAction::SendPing
        },
        SessionEvent::DeadlineReached => if awaiting_pong {
            SessionAction::End { close: true }
        } else {
            SessionAction::Continue
        },
    }
}

/// Ping bookkeeping of the serve session: whether a pong is awaited.
#[derive(Debug)]
pub struct ServeSession {
    awaiting_pong: bool,
}

impl ServeSession {
    /// Whether a pong is awaited.
    pub closed spec fn spec_awaiting_pong(&self) -> bool {
        self.awaiting_pong
    }

    /// A fresh session awaits nothing.
    pub fn new() -> (s: Self)
        ensures
            !s.spec_awaiting_pong(),
    {
        ServeSession { awaiting_pong: false }
    }

    /// Whether a pong is awaited (the pong timer is armed only then).
    pub fn awaiting_pong(&self) -> (b: bool)
        ensures
            b == self.spec_awaiting_pong(),
    {
        self.awaiting_pong
    }

    /// Decide the serve session's reaction to `event`: a pong clears the
    /// wait; a close, a failed or ended stream, a closed broadcast and a
    /// missed pong end the session (with a close frame); a lag sends the
    /// reload signal; a tick pings unless a pong is already awaited.
    pub fn step(&mut self, event: SessionEvent) -> (a: SessionAction)
        ensures
            a == serve_reaction(old(self).spec_awaiting_pong(), event),
            a == (match event {
                SessionEvent::Pong => SessionAction::Continue,
                SessionEvent::ClientClose => SessionAction::End { close: true },
                SessionEvent::ReceiveEnded => SessionAction::End { close: true },
                SessionEvent::OtherFrame => SessionAction::Continue,
                SessionEvent::Update => SessionAction::Forward,
                SessionEvent::Lagged => SessionAction::SendReload,
                SessionEvent::BroadcastClosed => SessionAction::End { close: true },
                SessionEvent::PingTick => if old(self).spec_awaiting_pong() {
                    SessionAction::Continue
                } else {
                    SessionAction::SendPing
                },
                SessionEvent::DeadlineReached => if old(self).spec_awaiting_pong() {
                    SessionAction::End { close: true }
                } else {
                    SessionAction::Continue
                },
            }),
            final(self).spec_awaiting_pong() == (if event == SessionEvent::Pong {
                false
            } else {
                old(self).spec_awaiting_pong()
            }),
    {
        match event {
            SessionEvent::Pong => {
                self.awaiting_pong = false;
                SessionAction::Continue
            },
            SessionEvent::ClientClose => SessionAction::End { close: true },
            SessionEvent::ReceiveEnded => SessionAction::End { close: true },
            SessionEvent::OtherFrame => SessionAction::Continue,
            SessionEvent::Update => SessionAction::Forward,
            SessionEvent::Lagged => SessionAction::SendReload,
            SessionEvent::BroadcastClosed => SessionAction::End { close: true },
            SessionEvent::PingTick => if self.awaiting_pong {
                SessionAction::Continue
            } else {
                SessionAction::SendPing
            },
            SessionEvent::DeadlineReached => if self.awaiting_pong {
                SessionAction::End { close: true }
            } else {
                SessionAction::Continue
            },
        }
    }

    /// After a send: a failure ends the session (a close frame is still
    /// attempted); a ping that went out starts awaiting the pong.
    pub fn after_send(&mut self, was_ping: bool, sent: bool) -> (a: SessionAction)
        ensures
            !sent ==> a == (SessionAction::End { close: true }),
            sent ==> a == SessionAction::Continue,
            final(self).spec_awaiting_pong() == (if sent && was_ping {
                true
            } else {
                old(self).spec_awaiting_pong()
            }),
    {
        if !sent {
            return SessionAction::End { close: true };
        }
        if was_ping {
            self.awaiting_pong = true;
        }
        SessionAction::Continue
    }
}

/// A pong that answers a ping before its deadline always clears the
/// deadline, and one at or after the deadline never does.
pub proof fn law_pong_before_deadline_clears(ping_at: u64, duration: u64, pong_at: u64)
    ensures
        ({
            let d = sat_add(ping_at, duration);
            &&& (pong_at < d ==> projection_reaction(Some(d), SessionEvent::Pong, pong_at)
                == SessionAction::Continue)
            &&& (pong_at >= d ==> projection_reaction(Some(d), SessionEvent::Pong, pong_at)
                == (SessionAction::End { close: true }))
        }),
{
}

/// A send never outlasts the pong deadline nor the send timeout.
pub proof fn law_send_budget_bounded(deadline: Option<u64>, now: u64)
    ensures
        send_budget_spec(deadline, now) matches Some(t) ==> t <= WS_SEND_TIMEOUT_NANOS,
        deadline matches Some(d) ==> (send_budget_spec(deadline, now) matches Some(t) ==> now + t <= d),
        deadline matches Some(d) ==> (now >= d <==> send_budget_spec(deadline, now) is None),
{
}

/// The action ends the session (with or without a close frame).
pub open spec fn ends_session(a: SessionAction) -> bool {
    a matches SessionAction::End { .. } || a == SessionAction::FlushAndEnd || a
        == SessionAction::CloseLaggedAndEnd
}

/// What ends a projection session, and what each event asks for: a client
/// close flushes and ends; a failed stream ends without a close frame; a
/// lag closes with "going away"; a closed broadcast, a reached deadline and
/// a pong at or after the deadline close and end. Everything else keeps
/// the session: other client frames are ignored, updates are forwarded,
/// a tick pings unless a pong is awaited, and a timely pong continues.
pub proof fn law_projection_session_events(deadline: Option<u64>, event: SessionEvent, now: u64)
    ensures
        ends_session(projection_reaction(deadline, event, now)) <==> (event == SessionEvent::ClientClose
            || event == SessionEvent::ReceiveEnded || event == SessionEvent::Lagged || event
            == SessionEvent::BroadcastClosed || event == SessionEvent::DeadlineReached || (event
            == SessionEvent::Pong && (deadline matches Some(d) && now >= d))),
        event == SessionEvent::OtherFrame ==> projection_reaction(deadline, event, now)
            == SessionAction::Continue,
        event == SessionEvent::Update ==> projection_reaction(deadline, event, now)
            == SessionAction::Forward,
        event == SessionEvent::ClientClose ==> projection_reaction(deadline, event, now)
            == SessionAction::FlushAndEnd,
        event == SessionEvent::ReceiveEnded ==> projection_reaction(deadline, event, now) == (
        SessionAction::End { close: false }),
        event == SessionEvent::Lagged ==> projection_reaction(deadline, event, now)
            == SessionAction::CloseLaggedAndEnd,
        event == SessionEvent::PingTick ==> projection_reaction(deadline, event, now) == (if deadline
            is Some {
            SessionAction::Continue
        } else {
            SessionAction::SendPing
        }),
        (event == SessionEvent::BroadcastClosed || event == SessionEvent::DeadlineReached)
            ==> projection_reaction(deadline, event, now) == (SessionAction::End { close: true }),
        projection_reaction(deadline, event, now) != SessionAction::SendReload,
{
}

/// What ends a serve session, and what each event asks for: a client
/// close, a failed stream, a closed broadcast and a missed pong (only
/// while one is awaited) end it with a close frame. Everything else keeps
/// the session: pongs and other client frames continue, updates are
/// forwarded, a lag sends the reload signal, and a tick pings unless a
/// pong is awaited.
pub proof fn law_serve_session_events(awaiting_pong: bool, event: SessionEvent)
    ensures
        ends_session(serve_reaction(awaiting_pong, event)) <==> (event == SessionEvent::ClientClose
            || event == SessionEvent::ReceiveEnded || event == SessionEvent::BroadcastClosed || (event
            == SessionEvent::DeadlineReached && awaiting_pong)),
        ends_session(serve_reaction(awaiting_pong, event)) ==> serve_reaction(awaiting_pong, event)
            == (SessionAction::End { close: true }),
        (event == SessionEvent::OtherFrame || event == SessionEvent::Pong) ==> serve_reaction(
            awaiting_pong,
            event,
        ) == SessionAction::Continue,
        event == SessionEvent::Update ==> serve_reaction(awaiting_pong, event) == SessionAction::Forward,
        event == SessionEvent::Lagged ==> serve_reaction(awaiting_pong, event)
            == SessionAction::SendReload,
        event == SessionEvent::PingTick ==> serve_reaction(awaiting_pong, event) == (if awaiting_pong {
            SessionAction::Continue
        } else {
            SessionAction::SendPing
        }),
{
}

} // verus!
