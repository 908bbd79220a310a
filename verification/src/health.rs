//! Health of the log pipeline, decided from what the probes of its three
//! components found.

use vstd::prelude::*;

verus! {

/// What a probe of one component found.
#[derive(Debug, Clone)]
pub enum Probe {
    /// The component did not answer, or answered with an error.
    Unreachable,
    /// The component answered; `reported_status` is the status named in its
    /// answer, if it names one.
    Reachable { reported_status: Option<String> },
}

/// The health of one component.
#[derive(Debug, Clone)]
pub struct ComponentHealth {
    pub status: String,
    pub reachable: bool,
}

/// The status text of a probed component: what it reported, `unknown` where
/// it answered without naming a status, `unreachable` where it did not
/// answer.
pub open spec fn status_text(probe: Probe) -> Seq<char> {
    match probe {
        Probe::Unreachable => "unreachable"@,
        Probe::Reachable { reported_status: Some(status) } => status@,
        Probe::Reachable { reported_status: None } => "unknown"@,
    }
}

/// The health of a component that reports its own status.
pub fn component_health(probe: Probe) -> (health: ComponentHealth)
    ensures
        health.status@ == status_text(probe),
        health.reachable == (probe is Reachable),
{
    match probe {
        Probe::Unreachable => ComponentHealth { status: "unreachable".to_owned(), reachable: false },
        Probe::Reachable { reported_status } => match reported_status {
            Some(status) => ComponentHealth { status, reachable: true },
            None => ComponentHealth { status: "unknown".to_owned(), reachable: true },
        },
    }
}

/// The health of a component that only shows that it runs by answering.
pub fn running_health(reachable: bool) -> (health: ComponentHealth)
    ensures
        health.reachable == reachable,
        health.status@ == if reachable {
            "running"@
        } else {
            "unreachable"@
        },
{
    if reachable {
        ComponentHealth { status: "running".to_owned(), reachable: true }
    } else {
        ComponentHealth { status: "unreachable".to_owned(), reachable: false }
    }
}

/// The pipeline is healthy when all three components are reachable, and
/// degraded otherwise.
pub fn overall_status(elasticsearch: bool, logstash: bool, kibana: bool) -> (status: &'static str)
    ensures
        status@ == if elasticsearch && logstash && kibana {
            "healthy"@
        } else {
            "degraded"@
        },
{
    if elasticsearch && logstash && kibana {
        "healthy"
    } else {
        "degraded"
    }
}

/// The HTTP status code of the health report: 200 when the pipeline is
/// healthy, 503 when it is degraded.
pub fn health_status_code(elasticsearch: bool, logstash: bool, kibana: bool) -> (code: u16)
    ensures
        code == if elasticsearch && logstash && kibana {
            200u16
        } else {
            503u16
        },
{
    if elasticsearch && logstash && kibana {
        200
    } else {
        503
    }
}

/// Counters of the log shipping path.
#[derive(Debug, Clone)]
pub struct LoggingMetrics {
    pub logs_sent: u64,
    pub logs_failed: u64,
    pub connection_status: String,
    pub last_error: Option<String>,
}

impl LoggingMetrics {
    /// The metrics of a connected path on which nothing was sent yet.
    pub fn connected() -> (metrics: Self)
        ensures
            metrics.logs_sent == 0,
            metrics.logs_failed == 0,
            metrics.connection_status@ == "connected"@,
            metrics.last_error is None,
    {
        LoggingMetrics {
            logs_sent: 0,
            logs_failed: 0,
            connection_status: "connected".to_owned(),
            last_error: None,
        }
    }
}

} // verus!
