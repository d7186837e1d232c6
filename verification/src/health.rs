//! Health aggregation: one canonical status vocabulary over the service and
//! its collaborators.
//!
//! The probes themselves are network calls made outside this crate; their
//! outcomes come in as plain values.  Aggregation is the rule the service
//! reports by: everything probed and well is `ok`, an unreachable component
//! degrades the service, and a component that answered badly is an error.

use vstd::prelude::*;

verus! {

/// What a probe of one collaborator reported, when it answered at all.
#[derive(Clone, Copy, Debug, PartialEq, Eq, Structural)]
pub enum ProbeStatus {
    Healthy,
    Failing,
}

/// The canonical aggregated vocabulary.
#[derive(Clone, Copy, Debug, PartialEq, Eq, Structural)]
pub enum ServiceStatus {
    Healthy,
    Degraded,
    Failing,
}

/// The aggregation rule: `Ok` when every component answered well, `Degraded`
/// when some component could not be reached, `Error` when every component
/// answered but one answered badly.
pub open spec fn spec_aggregate(
    identity: Option<ProbeStatus>,
    iota: Option<ProbeStatus>,
) -> ServiceStatus {
    if identity == Some(ProbeStatus::Healthy) && iota == Some(ProbeStatus::Healthy) {
        ServiceStatus::Healthy
    } else if identity is None || iota is None {
        ServiceStatus::Degraded
    } else {
        ServiceStatus::Failing
    }
}

/// Aggregates the two collaborator probes, exactly `spec_aggregate`.
pub fn aggregate(identity: Option<ProbeStatus>, iota: Option<ProbeStatus>) -> (r: ServiceStatus)
    ensures
        r == spec_aggregate(identity, iota),
{
    match (identity, iota) {
        (Some(ProbeStatus::Healthy), Some(ProbeStatus::Healthy)) => ServiceStatus::Healthy,
        (None, _) => ServiceStatus::Degraded,
        (_, None) => ServiceStatus::Degraded,
        _ => ServiceStatus::Failing,
    }
}

/// Classifies a plain HTTP health probe: unreachable is `None`, a success
/// status is `Ok`, any other answer is `Error`.
pub open spec fn spec_classify_http_probe(reached: bool, status_success: bool) -> Option<
    ProbeStatus,
> {
    if !reached {
        None
    } else if status_success {
        Some(ProbeStatus::Healthy)
    } else {
        Some(ProbeStatus::Failing)
    }
}

/// Classifies a plain HTTP health probe, exactly `spec_classify_http_probe`.
pub fn classify_http_probe(reached: bool, status_success: bool) -> (r: Option<ProbeStatus>)
    ensures
        r == spec_classify_http_probe(reached, status_success),
{
    if !reached {
        None
    } else if status_success {
        Some(ProbeStatus::Healthy)
    } else {
        Some(ProbeStatus::Failing)
    }
}

/// Classifies the ledger node's discovery probe: well only when its endpoint
/// was configured, the request went out, the answer was a success and its
/// body was not empty.
pub open spec fn spec_classify_node_probe(
    env_set: bool,
    request_ok: bool,
    status_success: bool,
    body_nonempty: bool,
) -> ProbeStatus {
    if env_set && request_ok && status_success && body_nonempty {
        ProbeStatus::Healthy
    } else {
        ProbeStatus::Failing
    }
}

/// Classifies the ledger node's discovery probe, exactly
/// `spec_classify_node_probe`.
pub fn classify_node_probe(
    env_set: bool,
    request_ok: bool,
    status_success: bool,
    body_nonempty: bool,
) -> (r: ProbeStatus)
    ensures
        r == spec_classify_node_probe(env_set, request_ok, status_success, body_nonempty),
{
    if env_set && request_ok && status_success && body_nonempty {
        ProbeStatus::Healthy
    } else {
        ProbeStatus::Failing
    }
}

/// The canonical text of a service status.
pub open spec fn spec_status_label(s: ServiceStatus) -> Seq<char> {
    match s {
        ServiceStatus::Healthy => "ok"@,
        ServiceStatus::Degraded => "degraded"@,
        ServiceStatus::Failing => "error"@,
    }
}

/// The canonical text of a probe status.
pub open spec fn spec_probe_label(s: ProbeStatus) -> Seq<char> {
    match s {
        ProbeStatus::Healthy => "ok"@,
        ProbeStatus::Failing => "error"@,
    }
}

/// Renders a service status in the canonical vocabulary.
pub fn status_label(s: ServiceStatus) -> (r: &'static str)
    ensures
        r@ == spec_status_label(s),
{
    match s {
        ServiceStatus::Healthy => "ok",
        ServiceStatus::Degraded => "degraded",
        ServiceStatus::Failing => "error",
    }
}

/// Renders a probe status in the canonical vocabulary.
pub fn probe_label(s: ProbeStatus) -> (r: &'static str)
    ensures
        r@ == spec_probe_label(s),
{
    match s {
        ProbeStatus::Healthy => "ok",
        ProbeStatus::Failing => "error",
    }
}

/// Per-component report, rendered for the health endpoint.
pub struct ComponentStatus {
    pub backend: String,
    pub identity_service: Option<String>,
    pub iota_node: Option<String>,
}

/// The aggregated report of the whole deployment.
pub struct HealthStatus {
    pub status: String,
    pub components: ComponentStatus,
}

/// Builds the aggregated health report from the two collaborator probes.
/// The service answering is itself well, so `backend` is always `ok`; each
/// probed component is reported with its canonical label, or omitted when it
/// could not be reached.
pub fn build_health_status(identity: Option<ProbeStatus>, iota: Option<ProbeStatus>) -> (r:
    HealthStatus)
    ensures
        r.status@ == spec_status_label(spec_aggregate(identity, iota)),
        r.components.backend@ == "ok"@,
        (r.components.identity_service is Some) == (identity is Some),
        r.components.identity_service matches Some(l) ==> identity matches Some(p) && l@
            == spec_probe_label(p),
        (r.components.iota_node is Some) == (iota is Some),
        r.components.iota_node matches Some(l) ==> iota matches Some(p) && l@ == spec_probe_label(
            p,
        ),
{
    let overall = aggregate(identity, iota);
    let identity_label = match identity {
        Some(p) => Some(probe_label(p).to_owned()),
        None => None,
    };
    let iota_label = match iota {
        Some(p) => Some(probe_label(p).to_owned()),
        None => None,
    };
    HealthStatus {
        status: status_label(overall).to_owned(),
        components: ComponentStatus {
            backend: "ok".to_owned(),
            identity_service: identity_label,
            iota_node: iota_label,
        },
    }
}

} // verus!
