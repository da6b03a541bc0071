use cherry_pit::ws::{
    projection_after_send, projection_step, send_budget, KeepaliveState, ServeSession, SessionAction,
    SessionEvent, WS_SEND_TIMEOUT_NANOS,
};

#[test]
fn pong_before_deadline_clears_it() {
    let mut k = KeepaliveState::new(10);
    assert_eq!(k.arm_ping(100), 110);
    assert_eq!(k.deadline(), Some(110));
    assert!(!k.is_expired(109));
    assert!(k.record_pong(109));
    assert_eq!(k.deadline(), None);
}

#[test]
fn late_pong_is_refused() {
    let mut k = KeepaliveState::new(10);
    k.arm_ping(100);
    assert!(k.is_expired(110));
    assert!(!k.record_pong(110));
    assert_eq!(k.deadline(), Some(110));
}

#[test]
fn deadline_saturates() {
    let mut k = KeepaliveState::new(10);
    assert_eq!(k.arm_ping(u64::MAX - 3), u64::MAX);
}

#[test]
fn send_budget_is_shortened_by_the_deadline() {
    assert_eq!(send_budget(None, 0), Some(WS_SEND_TIMEOUT_NANOS));
    assert_eq!(send_budget(Some(1_000), 400), Some(600));
    assert_eq!(send_budget(Some(1_000), 1_000), None);
    assert_eq!(
        send_budget(Some(10 * WS_SEND_TIMEOUT_NANOS), 0),
        Some(WS_SEND_TIMEOUT_NANOS)
    );
}

#[test]
fn projection_session_reacts_to_events() {
    let mut k = KeepaliveState::new(10);
    assert_eq!(projection_step(&mut k, SessionEvent::Update, 0), SessionAction::Forward);
    assert_eq!(projection_step(&mut k, SessionEvent::PingTick, 0), SessionAction::SendPing);
    assert_eq!(projection_after_send(&mut k, true, true, 5), SessionAction::Continue);
    assert_eq!(k.deadline(), Some(15));
    assert_eq!(projection_step(&mut k, SessionEvent::PingTick, 6), SessionAction::Continue);
    assert_eq!(projection_step(&mut k, SessionEvent::Pong, 7), SessionAction::Continue);
    assert_eq!(k.deadline(), None);
    assert_eq!(projection_step(&mut k, SessionEvent::Lagged, 8), SessionAction::CloseLaggedAndEnd);
    assert_eq!(projection_step(&mut k, SessionEvent::ClientClose, 8), SessionAction::FlushAndEnd);
    assert_eq!(
        projection_step(&mut k, SessionEvent::ReceiveEnded, 8),
        SessionAction::End { close: false }
    );
    assert_eq!(
        projection_after_send(&mut k, false, false, 9),
        SessionAction::End { close: false }
    );
}

#[test]
fn projection_session_ends_on_late_pong() {
    let mut k = KeepaliveState::new(10);
    projection_after_send(&mut k, true, true, 0);
    assert_eq!(
        projection_step(&mut k, SessionEvent::Pong, 10),
        SessionAction::End { close: true }
    );
    assert_eq!(
        projection_step(&mut k, SessionEvent::DeadlineReached, 10),
        SessionAction::End { close: true }
    );
}

#[test]
fn serve_session_pings_once_and_waits_for_pong() {
    let mut s = ServeSession::new();
    assert_eq!(s.step(SessionEvent::PingTick), SessionAction::SendPing);
    assert_eq!(s.after_send(true, true), SessionAction::Continue);
    assert!(s.awaiting_pong());
    assert_eq!(s.step(SessionEvent::PingTick), SessionAction::Continue);
    assert_eq!(s.step(SessionEvent::Pong), SessionAction::Continue);
    assert!(!s.awaiting_pong());
    assert_eq!(s.step(SessionEvent::DeadlineReached), SessionAction::Continue);
    assert_eq!(s.step(SessionEvent::Lagged), SessionAction::SendReload);
    assert_eq!(s.after_send(false, false), SessionAction::End { close: true });
}

#[test]
fn serve_session_ends_when_pong_is_missed() {
    let mut s = ServeSession::new();
    s.step(SessionEvent::PingTick);
    s.after_send(true, true);
    assert_eq!(s.step(SessionEvent::DeadlineReached), SessionAction::End { close: true });
    assert_eq!(s.step(SessionEvent::ClientClose), SessionAction::End { close: true });
}
