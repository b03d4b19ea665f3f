use oncall_ai::alert::{Alert, AlertStatus, ParseError};
use oncall_ai::grafana::{Grafana, GrafanaAlert, GrafanaStatus, GrafanaWebhook};
use oncall_ai::text_map::Labels;
use oncall_ai::time::Timestamp;
use serde_json::Value;

const BATCH: &str = r#"{"receiver": "agent", "alerts": [
    {"status": "firing", "labels": {"service": "checkout", "alertname": "CheckoutDbLatency"},
     "annotations": {"summary": "slow"}, "startsAt": "2026-07-12T09:03:00Z",
     "fingerprint": "c4f3a2b1d8e90f67"},
    {"status": "resolved", "labels": {"service": "cart"}, "annotations": {},
     "startsAt": "1970-01-01T00:00:01Z", "fingerprint": "9e2a4c6b8d0f1e35"}
]}"#;

fn labels(value: &Value) -> Labels {
    let mut labels = Labels::new();
    for (key, text) in value.as_object().expect("an object of texts") {
        labels.insert(key.clone(), text.as_str().expect("a text").to_owned());
    }
    labels
}

fn time(value: &Value) -> Timestamp {
    let time: chrono::DateTime<chrono::Utc> =
        value.as_str().expect("a time").parse().expect("a valid time");
    Timestamp::new(time.timestamp(), time.timestamp_subsec_nanos()).expect("in range")
}

fn decode(body: &[u8]) -> Result<GrafanaWebhook, ParseError> {
    let value: Value = serde_json::from_slice(body)
        .map_err(|error| ParseError { message: error.to_string() })?;
    let alerts = value["alerts"]
        .as_array()
        .expect("alerts array")
        .iter()
        .map(|alert| GrafanaAlert {
            status: match alert["status"].as_str() {
                Some("firing") => GrafanaStatus::Firing,
                _ => GrafanaStatus::Resolved,
            },
            labels: labels(&alert["labels"]),
            annotations: labels(&alert["annotations"]),
            starts_at: time(&alert["startsAt"]),
            fingerprint: alert["fingerprint"].as_str().expect("a text").to_owned(),
        })
        .collect();
    Ok(GrafanaWebhook { alerts })
}

fn parse(body: &str) -> Result<Vec<Alert>, ParseError> {
    Grafana.parse(decode(body.as_bytes()), body.as_bytes())
}

#[test]
fn firing_single_normalizes() {
    let alerts = parse(
        r#"{"alerts": [{"status": "firing", "labels": {"service": "checkout"}, "annotations": {},
            "startsAt": "2026-07-12T09:03:00Z", "fingerprint": "c4f3a2b1d8e90f67"}]}"#,
    )
    .expect("one alert parses");
    assert_eq!(alerts.len(), 1);
    assert_eq!(alerts[0].source, "grafana");
    assert_eq!(alerts[0].source_alert_id, "c4f3a2b1d8e90f67");
    assert_eq!(alerts[0].status, AlertStatus::Firing);
    assert_eq!(alerts[0].labels.get("service").map(String::as_str), Some("checkout"));
    assert_eq!(alerts[0].annotations.len(), 0);
    assert_eq!(alerts[0].starts_at, Timestamp::new(1_783_846_980, 0).expect("valid time"));
}

#[test]
fn firing_batch_yields_one_alert_per_entry() {
    let alerts = parse(BATCH).expect("the batch parses");
    assert_eq!(alerts.len(), 2);
    let first = &alerts[0];
    assert_eq!(first.source, "grafana");
    assert_eq!(first.source_alert_id, "c4f3a2b1d8e90f67");
    assert_eq!(first.labels.get("service").map(String::as_str), Some("checkout"));
    assert_eq!(first.labels.len(), 2);
    assert_eq!(first.annotations.get("summary").map(String::as_str), Some("slow"));
    assert_eq!(first.starts_at, Timestamp::new(1_783_846_980, 0).expect("valid time"));
    assert_eq!(first.status, AlertStatus::Firing);
    assert_eq!(alerts[1].source_alert_id, "9e2a4c6b8d0f1e35");
}

#[test]
fn resolved_normalizes_with_resolved_status() {
    let alerts = parse(BATCH).expect("the batch parses");
    assert_eq!(alerts[1].status, AlertStatus::Resolved);
    assert_eq!(alerts[1].starts_at, Timestamp::new(1, 0).expect("valid time"));
}

#[test]
fn raw_payload_is_the_alert_slice() {
    let alerts = parse(BATCH).expect("the batch parses");
    let full: Value = serde_json::from_str(BATCH).expect("the batch is JSON");
    let raw_alerts = full.get("alerts").and_then(Value::as_array).expect("alerts array");
    let parsed: Vec<Value> = alerts
        .iter()
        .map(|alert| serde_json::from_str(&alert.raw_payload).expect("a payload is JSON"))
        .collect();
    let expected: Vec<Value> = raw_alerts.to_vec();
    assert_eq!(parsed, expected);
    assert!(!alerts[0].raw_payload.contains('\n'), "payloads are compact");
}

#[test]
fn empty_batch_parses_to_no_alerts() {
    assert!(parse(r#"{"alerts": []}"#).expect("an empty batch parses").is_empty());
}

#[test]
fn grafana_non_json_body_is_an_error() {
    let error = parse("not json at all").expect_err("must not parse");
    assert!(!error.message.is_empty());
}

#[test]
fn a_body_that_is_no_json_is_refused_whatever_the_delivery() {
    let webhook = GrafanaWebhook { alerts: Vec::new() };
    let error = Grafana.parse(Ok(webhook), b"{").expect_err("must not parse");
    assert!(error.message.contains("EOF"), "{}", error.message);
}

#[test]
fn alerts_without_a_slice_of_the_body_are_left_out() {
    let webhook = |count: usize| GrafanaWebhook {
        alerts: (0..count)
            .map(|i| GrafanaAlert {
                status: GrafanaStatus::Firing,
                labels: Labels::new(),
                annotations: Labels::new(),
                starts_at: Timestamp::new(0, 0).expect("valid time"),
                fingerprint: format!("f{i}"),
            })
            .collect(),
    };
    let none = Grafana.parse(Ok(webhook(2)), b"{}").expect("no list of alerts");
    assert!(none.is_empty());
    let raw = Ok(Some(vec!["1".to_owned()]));
    let one = Grafana.normalize(webhook(2), raw).expect("one slice");
    assert_eq!(one.len(), 1);
    assert_eq!(one[0].source_alert_id, "f0");
    assert_eq!(one[0].raw_payload, "1");
    assert_eq!(Grafana.name(), "grafana");
    assert_eq!(GrafanaStatus::Resolved.status(), AlertStatus::Resolved);
}
