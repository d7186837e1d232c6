use identity_service::config::parse_port;
use identity_service::config::AppConfig;
use identity_service::health::aggregate;
use identity_service::health::build_health_status;
use identity_service::health::classify_http_probe;
use identity_service::health::classify_node_probe;
use identity_service::health::probe_label;
use identity_service::health::status_label;
use identity_service::health::ProbeStatus;
use identity_service::health::ServiceStatus;
use identity_service::msgs::health_response;

fn bv(s: &str) -> Vec<u8> {
    s.as_bytes().to_vec()
}

#[test]
fn parse_port_accepts_decimal_u16() {
    assert_eq!(parse_port(&bv("8081")), Some(8081));
    assert_eq!(parse_port(&bv("0")), Some(0));
    assert_eq!(parse_port(&bv("65535")), Some(65535));
    assert_eq!(parse_port(&bv("007")), Some(7));
}

#[test]
fn parse_port_rejects_everything_else() {
    assert_eq!(parse_port(&bv("")), None);
    assert_eq!(parse_port(&bv("65536")), None);
    assert_eq!(parse_port(&bv("123456789")), None);
    assert_eq!(parse_port(&bv("80a1")), None);
    assert_eq!(parse_port(&bv("-1")), None);
    assert_eq!(parse_port(&bv(" 80")), None);
}

#[test]
fn app_config_keeps_its_parts() {
    let c = AppConfig::new("http://node:14265".to_owned(), "0xpkg".to_owned(), 8081);
    assert_eq!(c.iota_api_endpoint, "http://node:14265");
    assert_eq!(c.iota_identity_pkg_id, "0xpkg");
    assert_eq!(c.service_port, 8081);
}

#[test]
fn aggregate_follows_the_canonical_rule() {
    let ok = Some(ProbeStatus::Healthy);
    let bad = Some(ProbeStatus::Failing);
    assert_eq!(aggregate(ok, ok), ServiceStatus::Healthy);
    assert_eq!(aggregate(None, ok), ServiceStatus::Degraded);
    assert_eq!(aggregate(ok, None), ServiceStatus::Degraded);
    assert_eq!(aggregate(None, None), ServiceStatus::Degraded);
    assert_eq!(aggregate(bad, ok), ServiceStatus::Failing);
    assert_eq!(aggregate(ok, bad), ServiceStatus::Failing);
    assert_eq!(aggregate(bad, bad), ServiceStatus::Failing);
}

#[test]
fn probe_classification() {
    assert_eq!(classify_http_probe(false, false), None);
    assert_eq!(classify_http_probe(true, true), Some(ProbeStatus::Healthy));
    assert_eq!(classify_http_probe(true, false), Some(ProbeStatus::Failing));
    assert_eq!(classify_node_probe(true, true, true, true), ProbeStatus::Healthy);
    assert_eq!(classify_node_probe(false, true, true, true), ProbeStatus::Failing);
    assert_eq!(classify_node_probe(true, false, true, true), ProbeStatus::Failing);
    assert_eq!(classify_node_probe(true, true, false, true), ProbeStatus::Failing);
    assert_eq!(classify_node_probe(true, true, true, false), ProbeStatus::Failing);
}

#[test]
fn labels_use_the_canonical_vocabulary() {
    assert_eq!(status_label(ServiceStatus::Healthy), "ok");
    assert_eq!(status_label(ServiceStatus::Degraded), "degraded");
    assert_eq!(status_label(ServiceStatus::Failing), "error");
    assert_eq!(probe_label(ProbeStatus::Healthy), "ok");
    assert_eq!(probe_label(ProbeStatus::Failing), "error");
}

#[test]
fn health_report_is_rendered_from_the_probes() {
    let r = build_health_status(Some(ProbeStatus::Healthy), Some(ProbeStatus::Failing));
    assert_eq!(r.status, "error");
    assert_eq!(r.components.backend, "ok");
    assert_eq!(r.components.identity_service.as_deref(), Some("ok"));
    assert_eq!(r.components.iota_node.as_deref(), Some("error"));

    let r = build_health_status(None, Some(ProbeStatus::Healthy));
    assert_eq!(r.status, "degraded");
    assert!(r.components.identity_service.is_none());
}

#[test]
fn own_liveness_answer_is_up() {
    assert_eq!(health_response().status, "UP");
}
