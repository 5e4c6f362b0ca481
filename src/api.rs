//! Bodies of the responses that the HTTP surface sends.

use vstd::prelude::*;

verus! {

/// Answer to a health check.
pub struct HealthResponse {
    pub status: String,
}

/// Answer to a request for a report made in the background.
pub struct GenerateResponse {
    pub success: bool,
    pub message: String,
    /// Session whose progress the caller can poll.
    pub session_id: String,
}

/// Answer to a request for the scheduler's configuration.
pub struct SchedulerStatusResponse {
    pub scheduler_enabled: bool,
    pub api_key_configured: bool,
    pub max_attempts: u32,
}

} // verus!
