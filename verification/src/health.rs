//! The health report of an agent.
use vstd::prelude::*;
use crate::text::string_of;

verus! {

/// The version an agent reports in its health response.
pub const AGENT_VERSION: &'static str = "0.1.0";

#[derive(Debug, Clone)]
pub struct HealthResponse {
    pub status: String,
    pub uptime: u64,
    pub version: String,
}

impl HealthResponse {
    pub fn new(status: String, uptime: u64, version: String) -> (h: HealthResponse)
        ensures
            h.status@ == status@,
            h.uptime == uptime,
            h.version@ == version@,
    {
        HealthResponse { status, uptime, version }
    }

    /// A healthy agent: status `up`, the given uptime in seconds, and the agent version.
    pub fn healthy(uptime: u64) -> (h: HealthResponse)
        ensures
            h.status@ == "up"@,
            h.uptime == uptime,
            h.version@ == AGENT_VERSION@,
    {
        HealthResponse { status: string_of("up"), uptime, version: string_of(AGENT_VERSION) }
    }
}

} // verus!
