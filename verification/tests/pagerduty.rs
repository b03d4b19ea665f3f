use oncall_ai::alert::{Alert, AlertStatus, ParseError};
use oncall_ai::pagerduty::{status_for, Pagerduty, PagerdutyEvent, PagerdutyIncident};
use oncall_ai::time::Timestamp;

fn incident(priority: Option<&str>) -> PagerdutyIncident {
    PagerdutyIncident {
        id: "PGR0VU2".to_owned(),
        created_at: Timestamp::new(1_783_846_980, 0).expect("valid time"),
        title: "checkout is slow".to_owned(),
        service: "checkout".to_owned(),
        urgency: "high".to_owned(),
        priority: priority.map(str::to_owned),
    }
}

fn event(event_type: &str) -> PagerdutyEvent {
    PagerdutyEvent {
        event_type: event_type.to_owned(),
        data: Ok(incident(Some("P1"))),
        raw: format!("{{\"event_type\":\"{event_type}\",\"id\":7}}"),
    }
}

fn parse(event: PagerdutyEvent) -> Result<Vec<Alert>, ParseError> {
    Pagerduty.parse(Ok(event))
}

fn sole_alert(event_type: &str) -> Alert {
    let alerts = parse(event(event_type)).expect("the event parses");
    assert_eq!(alerts.len(), 1);
    alerts.into_iter().next().expect("one alert")
}

#[test]
fn triggered_normalizes_to_firing() {
    let alert = sole_alert("incident.triggered");
    assert_eq!(alert.source, "pagerduty");
    assert_eq!(alert.source_alert_id, "PGR0VU2");
    assert_eq!(alert.status, AlertStatus::Firing);
    assert_eq!(alert.starts_at, Timestamp::new(1_783_846_980, 0).expect("valid time"));
    assert_eq!(alert.labels.len(), 3);
    assert_eq!(alert.labels.get("service").map(String::as_str), Some("checkout"));
    assert_eq!(alert.labels.get("urgency").map(String::as_str), Some("high"));
    assert_eq!(alert.labels.get("priority").map(String::as_str), Some("P1"));
    assert_eq!(alert.annotations.len(), 1);
    assert_eq!(alert.annotations.get("summary").map(String::as_str), Some("checkout is slow"));
}

#[test]
fn an_incident_without_priority_has_no_such_label() {
    let mut event = event("incident.triggered");
    event.data = Ok(incident(None));
    let alerts = parse(event).expect("the event parses");
    assert_eq!(alerts[0].labels.len(), 2);
    assert_eq!(alerts[0].labels.get("priority"), None);
}

#[test]
fn raw_payload_is_the_full_event() {
    let alert = sole_alert("incident.triggered");
    assert_eq!(alert.raw_payload, r#"{"event_type":"incident.triggered","id":7}"#);
}

#[test]
fn acknowledged_normalizes_to_acknowledged() {
    assert_eq!(sole_alert("incident.acknowledged").status, AlertStatus::Acknowledged);
}

#[test]
fn unacknowledged_maps_back_to_firing() {
    assert_eq!(sole_alert("incident.unacknowledged").status, AlertStatus::Firing);
}

#[test]
fn resolved_normalizes_to_resolved() {
    assert_eq!(sole_alert("incident.resolved").status, AlertStatus::Resolved);
}

#[test]
fn reopened_maps_to_firing() {
    assert_eq!(sole_alert("incident.reopened").status, AlertStatus::Firing);
}

#[test]
fn priority_updated_is_skipped() {
    let alerts = parse(event("incident.priority_updated")).expect("skipped");
    assert!(alerts.is_empty());
    assert_eq!(status_for("incident.priority_updated"), None);
}

#[test]
fn non_incident_event_is_skipped_without_reading_data() {
    let event = PagerdutyEvent {
        event_type: "service.updated".to_owned(),
        data: Err(ParseError { message: "missing field `id`".to_owned() }),
        raw: r#"{"event_type":"service.updated","data":{"unrelated":"shape"}}"#.to_owned(),
    };
    assert!(parse(event).expect("skipped").is_empty());
}

#[test]
fn missing_event_envelope_is_an_error_naming_the_field() {
    let missing = ParseError { message: "missing field `event`".to_owned() };
    let error = Pagerduty.parse(Err(missing)).expect_err("must not parse");
    assert!(error.message.contains("event"), "error must name the missing field");
}

#[test]
fn mapped_event_with_missing_created_at_is_an_error_naming_the_field() {
    let mut event = event("incident.triggered");
    event.data = Err(ParseError { message: "missing field `created_at`".to_owned() });
    let error = parse(event).expect_err("must not parse");
    assert!(error.message.contains("created_at"), "error must name the missing field");
}

#[test]
fn pagerduty_non_json_body_is_an_error() {
    let error = serde_json::from_slice::<serde_json::Value>(b"not json at all")
        .map_err(|error| ParseError { message: error.to_string() })
        .map(|_| event("incident.triggered"));
    assert!(!Pagerduty.parse(error).expect_err("must not parse").message.is_empty());
    assert_eq!(Pagerduty.name(), "pagerduty");
}
