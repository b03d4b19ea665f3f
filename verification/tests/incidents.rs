use oncall_ai::alert::{Alert, AlertStatus};
use oncall_ai::grafana::{Grafana, GrafanaAlert, GrafanaStatus, GrafanaWebhook};
use oncall_ai::incident::worker::{describe_decision, handle_alert_at, DecisionNote};
use oncall_ai::incident::{Decision, InMemoryStore, IncidentId};
use oncall_ai::pagerduty::{Pagerduty, PagerdutyEvent, PagerdutyIncident};
use oncall_ai::text_map::Labels;
use oncall_ai::time::Timestamp;

fn at(secs: i64) -> Timestamp {
    Timestamp::new(secs, 0).expect("valid time")
}

fn grafana(status: GrafanaStatus) -> Alert {
    let mut labels = Labels::new();
    labels.insert("service".to_owned(), "checkout".to_owned());
    let webhook = GrafanaWebhook {
        alerts: vec![GrafanaAlert {
            status,
            labels,
            annotations: Labels::new(),
            starts_at: at(1_783_846_980),
            fingerprint: "c4f3a2b1d8e90f67".to_owned(),
        }],
    };
    let alerts = Grafana.parse(Ok(webhook), br#"{"alerts": [{}]}"#).expect("the delivery parses");
    alerts.into_iter().next().expect("one alert")
}

fn pagerduty(id: &str) -> Alert {
    let event = PagerdutyEvent {
        event_type: "incident.triggered".to_owned(),
        data: Ok(PagerdutyIncident {
            id: id.to_owned(),
            created_at: at(1_783_846_980),
            title: "checkout is slow".to_owned(),
            service: "checkout".to_owned(),
            urgency: "high".to_owned(),
            priority: None,
        }),
        raw: "{}".to_owned(),
    };
    let alerts = Pagerduty.parse(Ok(event)).expect("the event parses");
    alerts.into_iter().next().expect("one alert")
}

/// What was decided of the alert, and how the log tells it.
fn handle(store: &mut InMemoryStore, alert: Alert, now: i64) -> (Decision, DecisionNote) {
    let handled = handle_alert_at(store, alert, at(now), at(0), IncidentId::new());
    let note = describe_decision(&handled.decision);
    (handled.decision, note)
}

#[test]
fn grafana_lifecycle_dedupes_and_closes() {
    let mut store = InMemoryStore::new();

    let (opened, note) = handle(&mut store, grafana(GrafanaStatus::Firing), 1);
    assert_eq!(note.decision, "opened");
    let Decision::Opened { incident } = opened else {
        panic!("the first alert opens an incident");
    };

    let (updated, note) = handle(&mut store, grafana(GrafanaStatus::Firing), 2);
    assert_eq!(
        updated,
        Decision::Updated { incident },
        "a re-fire must land on the incident it opened"
    );
    assert_eq!(note.rule, Some("exact"));

    let (closed, note) = handle(&mut store, grafana(GrafanaStatus::Resolved), 3);
    assert_eq!(
        closed,
        Decision::Closed { incident },
        "the resolve must close the incident the fire opened"
    );
    assert_eq!(note.reason, Some("resolved"));
}

#[test]
fn pagerduty_siblings_share_an_incident() {
    let mut store = InMemoryStore::new();

    let (opened, _) = handle(&mut store, pagerduty("PGR0VU2"), 1);
    let Decision::Opened { incident } = opened else {
        panic!("the first alert opens an incident");
    };

    let (attached, note) = handle(&mut store, pagerduty("PGR0VU3"), 2);
    assert_eq!(
        attached,
        Decision::Attached { incident },
        "same labels, different PD id must attach, not open"
    );
    assert_eq!(note.rule, Some("fingerprint"));
}

#[test]
fn firing_checkout_alerts_agree_on_the_shared_contract() {
    let grafana = grafana(GrafanaStatus::Firing);
    let pagerduty = pagerduty("PGR0VU2");

    for alert in [&grafana, &pagerduty] {
        assert_eq!(alert.status, AlertStatus::Firing);
        assert_eq!(
            alert.labels.get("service").map(String::as_str),
            Some("checkout"),
            "service must live under the same label key for {}",
            alert.source
        );
        assert!(!alert.source_alert_id.is_empty());
    }
    assert_ne!(grafana.source, pagerduty.source);
}
