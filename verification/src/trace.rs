//! Hooks of the structured HTTP tracing layer: one span per request,
//! a debug event when it starts, and a status-tagged event on response.
//!
//! A 101 Switching Protocols response (a WebSocket upgrade) is logged
//! at info level and without `latency_us`: the measured "latency" of a
//! protocol switch is the whole connection's lifetime, which would
//! pollute request-latency metrics.
use vstd::prelude::*;

verus! {

/// Status code of a protocol switch.
pub const SWITCHING_PROTOCOLS: u16 = 101;

/// Opens the `http` span of a request, tagged with method and path.
#[derive(Clone, Copy, Debug)]
pub struct MakeHttpSpan;

/// Emits the `request started` event.
#[derive(Clone, Copy, Debug)]
pub struct OnHttpRequest;

/// Emits the `response` event.
#[derive(Clone, Copy, Debug)]
pub struct OnHttpResponse;

/// Level of a tracing event.
#[derive(Clone, Copy, Debug, PartialEq, Eq, Structural)]
pub enum EventLevel {
    Debug,
    Info,
}

/// The fields of one `response` event.
#[derive(Clone, Copy, Debug, PartialEq, Eq, Structural)]
pub struct ResponseEvent {
    pub level: EventLevel,
    pub status: u16,
    /// Whole microseconds of latency, saturated to `u64::MAX`; absent
    /// for a protocol switch.
    pub latency_us: Option<u64>,
}

/// `n` saturated to `u64::MAX`.
pub open spec fn saturate_u64(n: u128) -> u64 {
    if n > u64::MAX as u128 {
        u64::MAX
    } else {
        n as u64
    }
}

impl OnHttpResponse {
    /// The event logged for a response with `status` after
    /// `latency_micros` microseconds.
    pub fn response_event(&self, status: u16, latency_micros: u128) -> (e: ResponseEvent)
        ensures
            e.status == status,
            status == SWITCHING_PROTOCOLS ==> e.level == EventLevel::Info && e.latency_us is None,
            status != SWITCHING_PROTOCOLS ==> e.level == EventLevel::Debug && e.latency_us == Some(
                saturate_u64(latency_micros),
            ),
    {
        if status == SWITCHING_PROTOCOLS {
            ResponseEvent { level: EventLevel::Info, status, latency_us: None }
        } else {
            let us: u64 = if latency_micros > u64::MAX as u128 {
                u64::MAX
            } else {
                latency_micros as u64
            };
            ResponseEvent { level: EventLevel::Debug, status, latency_us: Some(us) }
        }
    }
}

} // verus!
