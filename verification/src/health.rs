//! The shape of a health report and the rule that grades it.  Probing the
//! downstream API, memory or disk is I/O and lives with the embedding
//! program; this module judges the collected results.

use crate::text::str_eq;
use vstd::prelude::*;

verus! {

/// Outcome of one health probe.
pub struct CheckResult {
    pub status: String,
    pub message: Option<String>,
    pub duration_ms: Option<u64>,
}

/// The probes a health report covers.
pub struct HealthChecks {
    pub configuration: CheckResult,
    pub deepseek_api: CheckResult,
    pub memory: CheckResult,
    pub disk_space: CheckResult,
}

/// A full health report.
pub struct HealthStatus {
    pub status: String,
    pub timestamp: u64,
    pub version: String,
    pub environment: String,
    pub checks: HealthChecks,
}

/// Every probe reports healthy.
pub open spec fn checks_all_healthy(c: &HealthChecks) -> bool {
    &&& c.configuration.status@ == "healthy"@
    &&& c.deepseek_api.status@ == "healthy"@
    &&& c.memory.status@ == "healthy"@
    &&& c.disk_space.status@ == "healthy"@
}

/// Whether every probe of the report came back healthy.
pub fn all_checks_healthy(checks: &HealthChecks) -> (r: bool)
    ensures
        r == checks_all_healthy(checks),
{
    str_eq(checks.configuration.status.as_str(), "healthy") && str_eq(
        checks.deepseek_api.status.as_str(),
        "healthy",
    ) && str_eq(checks.memory.status.as_str(), "healthy") && str_eq(
        checks.disk_space.status.as_str(),
        "healthy",
    )
}

} // verus!
