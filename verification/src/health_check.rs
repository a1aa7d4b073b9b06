//! Health checks: named probes of the system's parts and the rule that
//! folds their outcomes into one overall status.

use vstd::prelude::*;

verus! {

/// Outcome of one probe, or of the system as a whole.
#[derive(Debug, Clone, Copy, PartialEq, Eq, Structural)]
pub enum HealthStatus {
    Healthy,
    Degraded,
    Unhealthy,
    Unknown,
}

/// One probe's report.  Timestamps are Unix seconds.
#[derive(Debug)]
pub struct HealthCheck {
    pub name: String,
    pub status: HealthStatus,
    pub message: Option<String>,
    pub timestamp: u64,
    pub duration_ms: u64,
}

/// How one probe's outcome folds into the running overall status: an
/// unhealthy probe dominates, a degraded one beats anything but unhealthy,
/// an unknown one downgrades a healthy run, and a healthy probe changes
/// nothing.
pub open spec fn combine_status(acc: HealthStatus, next: HealthStatus) -> HealthStatus {
    match next {
        HealthStatus::Unhealthy => HealthStatus::Unhealthy,
        HealthStatus::Degraded => if acc == HealthStatus::Unhealthy {
            acc
        } else {
            HealthStatus::Degraded
        },
        HealthStatus::Healthy => acc,
        HealthStatus::Unknown => if acc == HealthStatus::Healthy {
            HealthStatus::Unknown
        } else {
            acc
        },
    }
}

/// The overall status of a run of probes, folded left to right from
/// `Healthy`.
pub open spec fn overall_of(statuses: Seq<HealthStatus>) -> HealthStatus
    decreases statuses.len(),
{
    if statuses.len() == 0 {
        HealthStatus::Healthy
    } else {
        combine_status(overall_of(statuses.drop_last()), statuses.last())
    }
}

/// Fold a run of probe outcomes into the system's overall status.
pub fn overall_status(statuses: &Vec<HealthStatus>) -> (r: HealthStatus)
    ensures
        r == overall_of(statuses@),
{
    let mut acc = HealthStatus::Healthy;
    let mut i: usize = 0;
    while i < statuses.len()
        invariant
            i <= statuses.len(),
            acc == overall_of(statuses@.take(i as int)),
        decreases statuses.len() - i,
    {
        proof {
            assert(statuses@.take(i + 1).drop_last() =~= statuses@.take(i as int));
            assert(statuses@.take(i + 1).last() == statuses@[i as int]);
        }
        let next = statuses[i];
        acc = match next {
            HealthStatus::Unhealthy => HealthStatus::Unhealthy,
            HealthStatus::Degraded => if acc == HealthStatus::Unhealthy {
                acc
            } else {
                HealthStatus::Degraded
            },
            HealthStatus::Healthy => acc,
            HealthStatus::Unknown => if acc == HealthStatus::Healthy {
                HealthStatus::Unknown
            } else {
                acc
            },
        };
        i += 1;
    }
    proof {
        assert(statuses@.take(i as int) =~= statuses@);
    }
    acc
}

/// Probe of the database link.
#[derive(Debug)]
pub struct DatabaseHealthCheck {
    pub connection_string: String,
}

impl DatabaseHealthCheck {
    pub fn new(connection_string: String) -> (r: Self)
        ensures
            r.connection_string == connection_string,
    {
        DatabaseHealthCheck { connection_string }
    }
}

/// Probe of the Lightning node.
#[derive(Debug)]
pub struct LightningHealthCheck {
    pub node_endpoint: String,
}

impl LightningHealthCheck {
    pub fn new(node_endpoint: String) -> (r: Self)
        ensures
            r.node_endpoint == node_endpoint,
    {
        LightningHealthCheck { node_endpoint }
    }
}

/// Probe of the API surface.
#[derive(Debug)]
pub struct ApiHealthCheck {
    pub api_endpoint: String,
}

impl ApiHealthCheck {
    pub fn new(api_endpoint: String) -> (r: Self)
        ensures
            r.api_endpoint == api_endpoint,
    {
        ApiHealthCheck { api_endpoint }
    }
}

} // verus!
