use oncall_ai::alert::{Alert, AlertStatus, ParseError};
use oncall_ai::config::{SourceConfig, WebhookConfig};
use oncall_ai::grafana::{Grafana, GrafanaAlert, GrafanaStatus, GrafanaWebhook};
use oncall_ai::pagerduty::{Pagerduty, PagerdutyEvent, PagerdutyIncident};
use oncall_ai::text_map::Labels;
use oncall_ai::time::Timestamp;
use oncall_ai::webhook::{
    answer, logged_body, registry, settle, take_in, Delivery, Intake, LoggedBody, Registry, Reply,
    Source, HEALTH,
};
use serde_json::Value;

const SINGLE: &[u8] = br#"{"receiver": "agent", "alerts": [
    {"status": "firing", "labels": {"service": "checkout"}, "annotations": {"summary": "slow"},
     "startsAt": "2026-07-12T09:03:00Z", "fingerprint": "c4f3a2b1d8e90f67"}
]}"#;

const BATCH: &[u8] = br#"{"receiver": "agent", "alerts": [
    {"status": "firing", "labels": {"service": "checkout"}, "annotations": {"summary": "slow"},
     "startsAt": "2026-07-12T09:03:00Z", "fingerprint": "c4f3a2b1d8e90f67"},
    {"status": "firing", "labels": {"service": "cart"}, "annotations": {},
     "startsAt": "2026-07-12T09:04:00Z", "fingerprint": "9e2a4c6b8d0f1e35"}
]}"#;

const TRIGGERED: &[u8] = br#"{"event": {"event_type": "incident.triggered", "data": {
    "id": "PGR0VU2", "created_at": "2026-07-12T09:03:00Z", "title": "checkout is slow",
    "service": {"summary": "checkout"}, "urgency": "high", "priority": null}}}"#;

const PRIORITY_UPDATED: &[u8] = br#"{"event": {"event_type": "incident.priority_updated", "data": {
    "id": "PGR0VU2", "created_at": "2026-07-12T09:03:00Z", "title": "checkout is slow",
    "service": {"summary": "checkout"}, "urgency": "high", "priority": {"summary": "P1"}}}}"#;

fn parse_error(error: serde_json::Error) -> ParseError {
    ParseError { message: error.to_string() }
}

fn json(body: &[u8]) -> Result<Value, ParseError> {
    serde_json::from_slice(body).map_err(parse_error)
}

fn field<'a>(value: &'a Value, name: &'static str) -> Result<&'a Value, ParseError> {
    value.get(name).ok_or_else(|| {
        parse_error(<serde_json::Error as serde::de::Error>::missing_field(name))
    })
}

fn text(value: &Value, name: &'static str) -> Result<String, ParseError> {
    Ok(field(value, name)?.as_str().expect("a text").to_owned())
}

fn time(value: &Value, name: &'static str) -> Result<Timestamp, ParseError> {
    let time: chrono::DateTime<chrono::Utc> = text(value, name)?.parse().expect("a valid time");
    Ok(Timestamp::new(time.timestamp(), time.timestamp_subsec_nanos()).expect("in range"))
}

fn labels(value: &Value, name: &'static str) -> Result<Labels, ParseError> {
    let mut labels = Labels::new();
    for (key, text) in field(value, name)?.as_object().expect("an object of texts") {
        labels.insert(key.clone(), text.as_str().expect("a text").to_owned());
    }
    Ok(labels)
}

fn grafana_alert(value: &Value) -> Result<GrafanaAlert, ParseError> {
    Ok(GrafanaAlert {
        status: match text(value, "status")?.as_str() {
            "firing" => GrafanaStatus::Firing,
            _ => GrafanaStatus::Resolved,
        },
        labels: labels(value, "labels")?,
        annotations: labels(value, "annotations")?,
        starts_at: time(value, "startsAt")?,
        fingerprint: text(value, "fingerprint")?,
    })
}

fn grafana_webhook(body: &[u8]) -> Result<GrafanaWebhook, ParseError> {
    let body = json(body)?;
    let list = field(&body, "alerts")?.as_array().expect("a list of alerts");
    let alerts = list.iter().map(grafana_alert).collect::<Result<_, _>>()?;
    Ok(GrafanaWebhook { alerts })
}

fn pagerduty_incident(event: &Value) -> Result<PagerdutyIncident, ParseError> {
    let data = field(event, "data")?;
    Ok(PagerdutyIncident {
        id: text(data, "id")?,
        created_at: time(data, "created_at")?,
        title: text(data, "title")?,
        service: text(field(data, "service")?, "summary")?,
        urgency: text(data, "urgency")?,
        priority: match data.get("priority") {
            Some(priority) if !priority.is_null() => Some(text(priority, "summary")?),
            _ => None,
        },
    })
}

fn pagerduty_event(body: &[u8]) -> Result<PagerdutyEvent, ParseError> {
    let body = json(body)?;
    let event = field(&body, "event")?;
    Ok(PagerdutyEvent {
        event_type: text(event, "event_type")?,
        data: pagerduty_incident(event),
        raw: event.to_string(),
    })
}

/// What the source of this name makes of a body.
fn parse(source: &str, body: &[u8]) -> Result<Vec<Alert>, ParseError> {
    match source {
        "grafana" => Grafana.parse(grafana_webhook(body), body),
        "pagerduty" => Pagerduty.parse(pagerduty_event(body)),
        _ => Ok(Vec::new()),
    }
}

/// Delivers a body to the source of this name.
fn deliver(source: &str, body: &[u8], room: bool) -> Delivery {
    answer(&test_registry(), source, parse(source, body), room)
}

fn test_config() -> WebhookConfig {
    WebhookConfig {
        bind: "127.0.0.1:0".to_owned(),
        body_limit_bytes: 4096,
        body_log_limit_bytes: 65_536,
        grafana: SourceConfig { enabled: true },
        pagerduty: SourceConfig { enabled: true },
    }
}

fn test_registry() -> Registry {
    registry(&test_config())
}

fn alert(id: &str) -> Alert {
    Alert {
        source: "grafana",
        source_alert_id: id.to_owned(),
        labels: Labels::new(),
        annotations: Labels::new(),
        starts_at: Timestamp::new(0, 0).expect("valid time"),
        status: AlertStatus::Firing,
        raw_payload: "{}".to_owned(),
    }
}

#[test]
fn parseable_grafana_webhook_returns_202() {
    let delivery = deliver("grafana", SINGLE, true);
    assert_eq!(delivery.reply.status(), 202);
    assert_eq!(delivery.queued.len(), 1);
    let queued = &delivery.queued[0];
    assert_eq!(queued.source, "grafana");
    assert_eq!(queued.source_alert_id, "c4f3a2b1d8e90f67");
    assert_eq!(queued.status, AlertStatus::Firing);
    assert_eq!(queued.starts_at, Timestamp::new(1_783_846_980, 0).expect("valid time"));
    let raw: Value = serde_json::from_str(&queued.raw_payload).expect("the raw payload is JSON");
    assert_eq!(Some(&raw), json(SINGLE).expect("JSON").pointer("/alerts/0"));
}

#[test]
fn parseable_pagerduty_webhook_returns_202() {
    let delivery = deliver("pagerduty", TRIGGERED, true);
    assert_eq!(delivery.reply.status(), 202);
    assert_eq!(delivery.queued.len(), 1);
    let queued = &delivery.queued[0];
    assert_eq!(queued.source, "pagerduty");
    assert_eq!(queued.source_alert_id, "PGR0VU2");
    assert_eq!(queued.status, AlertStatus::Firing);
    let raw: Value = serde_json::from_str(&queued.raw_payload).expect("the raw payload is JSON");
    assert_eq!(Some(&raw), json(TRIGGERED).expect("JSON").get("event"));
}

#[test]
fn skipped_pagerduty_event_returns_202() {
    let delivery = deliver("pagerduty", PRIORITY_UPDATED, true);
    assert_eq!(delivery.reply.status(), 202);
    assert!(delivery.queued.is_empty());
}

#[test]
fn full_queue_returns_503() {
    let delivery = deliver("grafana", SINGLE, false);
    assert_eq!(delivery.reply.status(), 503);
    assert!(delivery.queued.is_empty());
}

#[test]
fn batch_larger_than_queue_capacity_returns_503() {
    let delivery = deliver("grafana", BATCH, false);
    assert_eq!(delivery.reply.status(), 503);
    assert!(delivery.queued.is_empty(), "a batch is queued whole or not at all");
}

#[test]
fn enqueued_alerts_reach_the_receiver() {
    let delivery = deliver("grafana", BATCH, true);
    assert_eq!(delivery.reply.status(), 202);
    let ids: Vec<&str> = delivery.queued.iter().map(|a| a.source_alert_id.as_str()).collect();
    assert_eq!(ids, ["c4f3a2b1d8e90f67", "9e2a4c6b8d0f1e35"]);
    assert!(delivery.queued.iter().all(|alert| alert.source == "grafana"));
}

#[test]
fn unknown_source_is_404() {
    let delivery = deliver("nonexistent", br#"{"any":"json"}"#, true);
    assert_eq!(delivery.reply.status(), 404);
    let delivery = answer(&test_registry(), "nonexistent", Ok(vec![alert("a")]), true);
    assert_eq!(delivery.reply.status(), 404);
    assert!(delivery.queued.is_empty());
}

#[test]
fn disabled_source_is_404() {
    let mut config = test_config();
    config.pagerduty = SourceConfig { enabled: false };
    let parsed = parse("pagerduty", TRIGGERED);
    assert_eq!(parsed.as_ref().map(Vec::len).expect("the event parses"), 1);
    let delivery = answer(&registry(&config), "pagerduty", parsed, true);
    assert_eq!(delivery.reply.status(), 404);
    assert!(delivery.queued.is_empty());
}

#[test]
fn disabled_source_is_left_out_of_the_registry() {
    let mut config = test_config();
    config.pagerduty = SourceConfig { enabled: false };
    let registry = registry(&config);
    assert!(registry.contains_key("grafana"));
    assert!(!registry.contains_key("pagerduty"));
    assert!(!registry.is_empty());
    assert_eq!(registry.get("grafana"), Some(Source::Grafana));
}

#[test]
fn nothing_is_served_without_an_enabled_source() {
    let mut config = test_config();
    config.grafana = SourceConfig { enabled: false };
    config.pagerduty = SourceConfig { enabled: false };
    assert!(registry(&config).is_empty());
}

#[test]
fn malformed_payload_is_400_with_error_body() {
    let delivery = deliver("grafana", br#"{"any":"json"}"#, true);
    assert_eq!(delivery.reply.status(), 400);
    assert!(
        matches!(&delivery.reply, Reply::BadRequest { message } if message.contains("alerts")),
        "error body must name what failed to parse"
    );
    let delivery = deliver("pagerduty", b"not json", true);
    assert_eq!(delivery.reply.status(), 400);
    assert!(delivery.queued.is_empty());
}

#[test]
fn a_source_that_is_not_served_is_not_found_whatever_the_body() {
    let error = ParseError { message: "no".to_owned() };
    let intake = take_in(None, Err(error));
    assert!(matches!(&intake, Intake::Refused(Reply::NotFound)));
    let delivery = settle(intake, true);
    assert_eq!(delivery.reply.status(), 404);
}

#[test]
fn health_returns_200_ok() {
    assert_eq!(HEALTH, "ok");
}

#[test]
fn the_log_shows_text_up_to_the_limit() {
    match logged_body("aé".as_bytes(), 2) {
        LoggedBody::Text { body, truncated } => {
            assert_eq!(body, "a");
            assert!(truncated);
        }
        LoggedBody::NotText => panic!("the body is text"),
    }
    match logged_body("aé".as_bytes(), 3) {
        LoggedBody::Text { body, truncated } => {
            assert_eq!(body, "aé");
            assert!(!truncated);
        }
        LoggedBody::NotText => panic!("the body is text"),
    }
}

#[test]
fn the_log_shows_nothing_of_bytes_that_are_no_text() {
    assert!(matches!(logged_body(&[0xff, 0x61], 10), LoggedBody::NotText));
    assert!(matches!(logged_body(&[0x61, 0xc3], 10), LoggedBody::NotText));
}
