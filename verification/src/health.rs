//! The health probes: where they are served and what they answer.

use crate::clock::now_rfc3339;
use vstd::prelude::*;
use vstd::string::*;

verus! {

/// A health probe.
#[derive(Clone, Copy, Debug, PartialEq, Eq, Structural)]
pub enum HealthProbe {
    /// Whether the service is ready for requests.
    Readiness,
    /// Whether the service is alive.
    Liveness,
}

/// What a probe answers, always with the HTTP status 200.
#[derive(Debug)]
pub struct HealthReport {
    /// `ready` or `alive`.
    pub status: String,
    /// The instant of the answer, as a date and time of RFC 3339.
    pub timestamp: String,
}

/// The path under which `probe` is served.
pub open spec fn path_of(probe: HealthProbe) -> Seq<char> {
    match probe {
        HealthProbe::Readiness => "/healthz/ready"@,
        HealthProbe::Liveness => "/healthz/live"@,
    }
}

/// The status that `probe` answers.
pub open spec fn status_of(probe: HealthProbe) -> Seq<char> {
    match probe {
        HealthProbe::Readiness => "ready"@,
        HealthProbe::Liveness => "alive"@,
    }
}

/// The path under which `probe` is served.
pub fn health_path(probe: HealthProbe) -> (path: &'static str)
    ensures
        path@ == path_of(probe),
{
    match probe {
        HealthProbe::Readiness => "/healthz/ready",
        HealthProbe::Liveness => "/healthz/live",
    }
}

/// The answer of `probe` at the instant written as `timestamp`.
pub fn health_report_at(probe: HealthProbe, timestamp: String) -> (report: HealthReport)
    ensures
        report.status@ == status_of(probe),
        report.timestamp == timestamp,
{
    let status = match probe {
        HealthProbe::Readiness => String::from_str("ready"),
        HealthProbe::Liveness => String::from_str("alive"),
    };
    HealthReport { status, timestamp }
}

/// The answer of `probe` at the present instant.
pub fn health_report(probe: HealthProbe) -> (report: HealthReport)
    ensures
        report.status@ == status_of(probe),
{
    health_report_at(probe, now_rfc3339())
}

} // verus!
