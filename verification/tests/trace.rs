use cherry_pit::trace::{EventLevel, OnHttpResponse, ResponseEvent};

#[test]
fn on_response_switching_protocols_omits_latency_us() {
    let e = OnHttpResponse.response_event(101, 301_000_000);
    assert_eq!(e, ResponseEvent { level: EventLevel::Info, status: 101, latency_us: None });
}

#[test]
fn on_response_ok_still_includes_latency_us() {
    let e = OnHttpResponse.response_event(200, 42_000);
    assert_eq!(e, ResponseEvent { level: EventLevel::Debug, status: 200, latency_us: Some(42_000) });
}

#[test]
fn latency_saturates_to_u64() {
    let e = OnHttpResponse.response_event(500, u128::MAX);
    assert_eq!(e.latency_us, Some(u64::MAX));
}
