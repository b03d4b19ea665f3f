use oncall_ai::alert::{Alert, AlertStatus};
use oncall_ai::text_map::Labels;
use oncall_ai::time::Timestamp;

#[test]
fn status_display_and_serde_are_stable() {
    let statuses = [AlertStatus::Firing, AlertStatus::Acknowledged, AlertStatus::Resolved];
    let rendered: Vec<(&str, String)> = statuses
        .iter()
        .map(|status| {
            let text = status.as_str();
            (text, serde_json::to_string(text).expect("status serializes"))
        })
        .collect();
    assert_eq!(
        rendered,
        vec![
            ("firing", "\"firing\"".to_owned()),
            ("acknowledged", "\"acknowledged\"".to_owned()),
            ("resolved", "\"resolved\"".to_owned()),
        ]
    );
}

#[test]
fn a_copy_holds_what_the_alert_holds() {
    let mut labels = Labels::new();
    labels.insert("service".to_owned(), "checkout".to_owned());
    let alert = Alert {
        source: "grafana",
        source_alert_id: "a-1".to_owned(),
        labels,
        annotations: Labels::new(),
        starts_at: Timestamp::new(7, 8).expect("valid time"),
        status: AlertStatus::Acknowledged,
        raw_payload: "{}".to_owned(),
    };
    let copy = alert.clone();
    assert_eq!(copy.source, "grafana");
    assert_eq!(copy.source_alert_id, "a-1");
    assert!(copy.labels.same(&alert.labels));
    assert!(copy.annotations.same(&alert.annotations));
    assert_eq!(copy.starts_at, alert.starts_at);
    assert_eq!(copy.status, AlertStatus::Acknowledged);
    assert_eq!(copy.raw_payload, "{}");
}
