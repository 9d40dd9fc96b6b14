use vstd::prelude::*;
use vstd::string::*;

verus! {

/// What the health endpoint reports.
#[derive(Debug, Clone, PartialEq, Eq)]
pub struct HealthReport {
    pub status: String,
    pub service: String,
    pub version: String,
}

/// The report of a server that is up.
pub fn sfu_health_check() -> (report: HealthReport)
    ensures
        report.status@ == "healthy"@,
        report.service@ == "SFU Server"@,
        report.version@ == "1.0.0"@,
{
    HealthReport {
        status: String::from_str("healthy"),
        service: String::from_str("SFU Server"),
        version: String::from_str("1.0.0"),
    }
}

} // verus!
