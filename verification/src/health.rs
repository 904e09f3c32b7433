//! The health report.
use vstd::prelude::*;

use crate::state::AppState;

verus! {

/// What the server says of itself to a health check.
#[derive(Debug, Clone, Copy, PartialEq, Eq)]
pub struct HealthzResponse {
    pub status: &'static str,
    pub uptime_seconds: u64,
    pub connections: usize,
    pub version: &'static str,
}

/// The health report of a server that has been up for `uptime_seconds`.
pub fn healthz_handler(state: &AppState, uptime_seconds: u64) -> (r: HealthzResponse)
    ensures
        r.status@ == "ok"@,
        r.uptime_seconds == uptime_seconds,
        r.connections == state@.conns.len(),
        r.version@ == "v1.1"@,
{
    HealthzResponse {
        status: "ok",
        uptime_seconds,
        connections: state.connection_count(),
        version: "v1.1",
    }
}

} // verus!
