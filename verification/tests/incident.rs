use oncall_ai::alert::{Alert, AlertStatus};
use oncall_ai::incident::{
    decide, decide_with_id, CloseReason, Decision, DedupeKey, InMemoryStore, Incident, IncidentId,
    IncidentState, IncidentStore,
};
use oncall_ai::text_map::Labels;
use oncall_ai::time::Timestamp;
use oncall_ai::triage::{Severity, TriageResult};

fn at(secs: i64) -> Timestamp {
    Timestamp::new(secs, 0).expect("valid time")
}

fn test_alert() -> Alert {
    let mut labels = Labels::new();
    labels.insert("alertname".to_owned(), "CheckoutDbLatency".to_owned());
    Alert {
        source: "grafana",
        source_alert_id: "test-alert-1".to_owned(),
        labels,
        annotations: Labels::new(),
        starts_at: at(0),
        status: AlertStatus::Firing,
        raw_payload: "{}".to_owned(),
    }
}

fn firing(id: &str) -> Alert {
    let mut alert = test_alert();
    alert.source_alert_id = id.to_owned();
    alert
}

fn resolved(id: &str) -> Alert {
    let mut alert = firing(id);
    alert.status = AlertStatus::Resolved;
    alert
}

fn with_label(mut alert: Alert, key: &str, value: &str) -> Alert {
    alert.labels.insert(key.to_owned(), value.to_owned());
    alert
}

fn stub_triage() -> TriageResult {
    TriageResult {
        severity: Severity::P1,
        service: Some("checkout".to_owned()),
        tags: Vec::new(),
        summary: "stub".to_owned(),
    }
}

fn open_test_incident(store: &mut InMemoryStore) -> IncidentId {
    let alert = test_alert();
    let id = IncidentId::new();
    store.insert(Incident::open(id, DedupeKey::of(&alert), alert, at(1_000)));
    id
}

fn opened(decision: Decision) -> IncidentId {
    match decision {
        Decision::Opened { incident } => incident,
        other => panic!("the alert must open an incident: {other:?}"),
    }
}

#[test]
fn incident_ids_are_v7_and_unique() {
    let (a, b) = (IncidentId::new(), IncidentId::new());
    assert_eq!(uuid::Uuid::from_u128(a.0).get_version_num(), 7);
    assert_eq!((a.0 >> 76) & 0xf, 7);
    assert_eq!((a.0 >> 62) & 0x3, 2);
    assert_ne!(a, b);
    assert_ne!(IncidentId::default(), IncidentId::default());
}

#[test]
fn an_incident_id_is_written_in_groups_of_digits() {
    let id = IncidentId(0x0198_f1c2_3a4b_7c5d_8e6f_0123_4567_89ab);
    assert_eq!(id.text(), "0198f1c2-3a4b-7c5d-8e6f-0123456789ab");
    assert_eq!(IncidentId(0).text(), "00000000-0000-0000-0000-000000000000");
}

#[test]
fn dedupe_key_ignores_everything_but_source_and_labels() {
    let mut other = test_alert();
    other.source_alert_id = "different-id".to_owned();
    other.annotations.insert("summary".to_owned(), "different".to_owned());
    other.status = AlertStatus::Resolved;
    other.starts_at = at(77);
    other.raw_payload = "[1]".to_owned();
    assert!(DedupeKey::of(&test_alert()).same(&DedupeKey::of(&other)));
}

#[test]
fn dedupe_key_separates_on_any_label_difference() {
    let mut other = test_alert();
    other.labels.insert("env".to_owned(), "prod".to_owned());
    assert!(!DedupeKey::of(&test_alert()).same(&DedupeKey::of(&other)));
    let mut elsewhere = test_alert();
    elsewhere.source = "pagerduty";
    assert!(!DedupeKey::of(&test_alert()).same(&DedupeKey::of(&elsewhere)));
}

#[test]
fn open_starts_with_one_alert_and_no_triage() {
    let now = Timestamp::now();
    let alert = test_alert();
    let incident = Incident::open(IncidentId::new(), DedupeKey::of(&alert), alert, now);
    assert_eq!(incident.state, IncidentState::Open);
    assert_eq!(incident.alerts.len(), 1);
    assert!(incident.triage.is_none());
    assert_eq!(incident.opened_at, now);
    assert_eq!(incident.last_activity_at, now);
}

#[test]
fn close_reasons_have_names() {
    assert_eq!(CloseReason::Resolved.as_str(), "resolved");
    assert_eq!(CloseReason::IdleTtl.as_str(), "idle_ttl");
}

#[test]
fn insert_indexes_both_lookups() {
    let mut store = InMemoryStore::new();
    let id = open_test_incident(&mut store);
    let alert = test_alert();
    assert_eq!(store.find_open_by_alert(alert.source, &alert.source_alert_id), Some(id));
    assert_eq!(store.find_open_by_key(&DedupeKey::of(&alert)), Some(id));
    assert_eq!(store.get(id).expect("inserted").id, id);
}

#[test]
fn attach_indexes_the_new_alert_and_bumps_activity() {
    let mut store = InMemoryStore::new();
    let id = open_test_incident(&mut store);
    let mut second = test_alert();
    second.source_alert_id = "test-alert-2".to_owned();
    let later = at(1_010);
    store.attach_alert(id, second, later);

    let incident = store.get(id).expect("present");
    assert_eq!(incident.alerts.len(), 2);
    assert_eq!(incident.last_activity_at, later);
    assert_eq!(store.find_open_by_alert("grafana", "test-alert-2"), Some(id));
}

#[test]
fn set_alert_status_updates_in_place_and_bumps_activity() {
    let mut store = InMemoryStore::new();
    let id = open_test_incident(&mut store);
    let later = at(1_010);
    store.set_alert_status(id, "grafana", "test-alert-1", AlertStatus::Resolved, later);

    let incident = store.get(id).expect("present");
    assert_eq!(incident.alerts.len(), 1, "an update never appends");
    assert_eq!(incident.alerts[0].status, AlertStatus::Resolved);
    assert_eq!(incident.last_activity_at, later);
}

#[test]
fn the_status_of_an_alert_that_is_not_held_changes_nothing() {
    let mut store = InMemoryStore::new();
    let id = open_test_incident(&mut store);
    store.set_alert_status(id, "grafana", "another", AlertStatus::Resolved, at(2_000));
    let incident = store.get(id).expect("present");
    assert_eq!(incident.alerts[0].status, AlertStatus::Firing);
    assert_eq!(incident.last_activity_at, at(1_000));
}

#[test]
fn close_removes_every_open_index_entry() {
    let mut store = InMemoryStore::new();
    let id = open_test_incident(&mut store);
    let mut second = test_alert();
    second.source_alert_id = "test-alert-2".to_owned();
    store.attach_alert(id, second, at(1_001));

    store.close(id, CloseReason::Resolved, at(1_002));

    assert_eq!(store.find_open_by_alert("grafana", "test-alert-1"), None);
    assert_eq!(store.find_open_by_alert("grafana", "test-alert-2"), None);
    assert_eq!(store.find_open_by_key(&DedupeKey::of(&test_alert())), None);
    assert!(matches!(
        store.get(id).expect("closed incidents stay readable").state,
        IncidentState::Closed { reason: CloseReason::Resolved, closed_at } if closed_at == at(1_002)
    ));
}

#[test]
fn set_triage_records_the_result() {
    let mut store = InMemoryStore::new();
    let id = open_test_incident(&mut store);
    store.set_triage(id, stub_triage());
    let triage = store.get(id).expect("present").triage.as_ref().expect("recorded");
    assert_eq!(triage.severity, Severity::P1);
    assert_eq!(triage.service.as_deref(), Some("checkout"));
}

#[test]
fn expire_closes_only_incidents_idle_past_the_cutoff() {
    let mut store = InMemoryStore::new();
    let stale = open_test_incident(&mut store);
    let fresh_alert = with_label(firing("fresh"), "env", "prod");
    let fresh = IncidentId::new();
    store.insert(Incident::open(fresh, DedupeKey::of(&fresh_alert), fresh_alert, at(4_600)));

    let sweep_at = at(8_200);
    let expired = store.expire_idle_before(at(1_001), sweep_at);

    assert_eq!(expired, vec![stale]);
    assert!(matches!(
        store.get(stale).expect("present").state,
        IncidentState::Closed { reason: CloseReason::IdleTtl, closed_at } if closed_at == sweep_at
    ));
    assert_eq!(store.find_open_by_alert("grafana", "test-alert-1"), None);
    assert!(matches!(store.get(fresh).expect("present").state, IncidentState::Open));
    assert_eq!(store.find_open_by_alert("grafana", "fresh"), Some(fresh));
}

#[test]
fn activity_at_the_cutoff_is_not_idle() {
    let mut store = InMemoryStore::new();
    let id = open_test_incident(&mut store);
    assert!(store.expire_idle_before(at(1_000), at(2_000)).is_empty());
    assert_eq!(store.expire_idle_before(at(1_001), at(2_000)), vec![id]);
    assert!(store.expire_idle_before(at(5_000), at(6_000)).is_empty(), "closed incidents stay");
}

#[test]
fn expire_returns_ids_in_creation_order() {
    let mut store = InMemoryStore::new();
    let first_alert = test_alert();
    let first = IncidentId::new();
    store.insert(Incident::open(first, DedupeKey::of(&first_alert), first_alert, at(100)));
    let second_alert = with_label(firing("test-alert-2"), "env", "prod");
    let second = IncidentId::new();
    store.insert(Incident::open(second, DedupeKey::of(&second_alert), second_alert, at(100)));

    let expired = store.expire_idle_before(at(3_700), at(7_300));

    assert_eq!(expired, vec![first, second]);
}

#[test]
fn mutators_on_missing_id_are_safe_no_ops() {
    let mut store = InMemoryStore::default();
    let id = IncidentId::new();
    let now = at(5);

    store.attach_alert(id, test_alert(), now);
    store.set_alert_status(id, "grafana", "test-alert-1", AlertStatus::Resolved, now);
    store.set_triage(id, stub_triage());
    store.close(id, CloseReason::Resolved, now);

    assert!(store.get(id).is_none());
    assert_eq!(store.find_open_by_alert("grafana", "test-alert-1"), None);
    assert_eq!(store.find_open_by_key(&DedupeKey::of(&test_alert())), None);
}

#[test]
fn same_alert_twice_updates_one_incident() {
    let mut store = InMemoryStore::new();
    let incident = opened(decide(&mut store, firing("a1"), at(1)));
    let second = decide(&mut store, firing("a1"), at(2));
    assert_eq!(second, Decision::Updated { incident });
    assert_eq!(
        store.get(incident).expect("present").alerts.len(),
        1,
        "a re-fire updates in place, never appends"
    );
    assert_eq!(store.get(incident).expect("present").last_activity_at, at(2));
}

#[test]
fn same_labels_different_alert_attaches_by_fingerprint() {
    let mut store = InMemoryStore::new();
    let incident = opened(decide(&mut store, firing("a1"), at(1)));
    let second = decide(&mut store, firing("a2"), at(2));
    assert_eq!(second, Decision::Attached { incident });
    assert_eq!(store.get(incident).expect("present").alerts.len(), 2);
}

#[test]
fn any_label_difference_opens_a_second_incident() {
    let mut store = InMemoryStore::new();
    let first = decide(&mut store, firing("a1"), at(1));
    let second = decide(&mut store, with_label(firing("a2"), "env", "prod"), at(2));
    assert!(matches!(first, Decision::Opened { .. }));
    assert!(
        matches!(second, Decision::Opened { .. }),
        "near-duplicates under-dedupe by design: {second:?}"
    );
    assert_ne!(opened(first), opened(second));
}

#[test]
fn resolving_the_only_alert_closes_the_incident() {
    let mut store = InMemoryStore::new();
    let incident = opened(decide(&mut store, firing("a1"), at(1)));
    let resolution = decide(&mut store, resolved("a1"), at(2));
    assert_eq!(resolution, Decision::Closed { incident });
    assert!(matches!(
        store.get(incident).expect("present").state,
        IncidentState::Closed { .. }
    ));
}

#[test]
fn partial_resolve_keeps_the_incident_open() {
    let mut store = InMemoryStore::new();
    let incident = opened(decide(&mut store, firing("a1"), at(1)));
    assert_eq!(decide(&mut store, firing("a2"), at(2)), Decision::Attached { incident });
    let partial = decide(&mut store, resolved("a1"), at(3));
    assert_eq!(partial, Decision::Updated { incident });
    assert!(matches!(store.get(incident).expect("present").state, IncidentState::Open));
    let last = decide(&mut store, resolved("a2"), at(4));
    assert_eq!(last, Decision::Closed { incident });
}

#[test]
fn resolve_then_refire_opens_a_new_incident() {
    let mut store = InMemoryStore::new();
    let first = opened(decide(&mut store, firing("a1"), at(1)));
    assert_eq!(
        decide(&mut store, resolved("a1"), at(2)),
        Decision::Closed { incident: first }
    );
    let refire = decide(&mut store, firing("a1"), at(3));
    match refire {
        Decision::Opened { incident } => assert_ne!(incident, first),
        other => panic!("a refire after close is a fresh incident: {other:?}"),
    }
    assert!(store.get(first).is_some(), "the closed incident stays");
}

#[test]
fn orphan_resolve_is_dropped_and_stores_nothing() {
    let mut store = InMemoryStore::new();
    let decision = decide(&mut store, resolved("never-seen"), at(1));
    assert_eq!(decision, Decision::DroppedResolve);
    assert_eq!(store.find_open_by_key(&DedupeKey::of(&test_alert())), None);
    assert_eq!(store.find_open_by_alert("grafana", "never-seen"), None);
}

#[test]
fn resolve_never_matches_by_fingerprint() {
    let mut store = InMemoryStore::new();
    let incident = opened(decide(&mut store, firing("a1"), at(1)));
    let sibling_resolve = decide(&mut store, resolved("a2"), at(2));
    assert_eq!(
        sibling_resolve,
        Decision::DroppedResolve,
        "a resolve for an unseen alert must not close its siblings' incident"
    );
    assert!(matches!(store.get(incident).expect("present").state, IncidentState::Open));
}

#[test]
fn acknowledged_behaves_like_firing_for_dedupe() {
    let mut store = InMemoryStore::new();
    let mut ack = firing("a1");
    ack.status = AlertStatus::Acknowledged;
    let decision = decide(&mut store, ack, at(1));
    assert!(
        matches!(decision, Decision::Opened { .. }),
        "ack-before-fire still opens: {decision:?}"
    );
}

#[test]
fn ack_after_fire_updates_and_keeps_open() {
    let mut store = InMemoryStore::new();
    let incident = opened(decide(&mut store, firing("a1"), at(1)));
    let mut ack = firing("a1");
    ack.status = AlertStatus::Acknowledged;
    assert_eq!(decide(&mut store, ack, at(2)), Decision::Updated { incident });
    assert!(matches!(store.get(incident).expect("present").state, IncidentState::Open));
}

#[test]
fn an_incident_gets_the_id_that_was_drawn_for_it() {
    let mut store = InMemoryStore::new();
    let fresh = IncidentId(7);
    let decision = decide_with_id(&mut store, firing("a1"), at(1), fresh);
    assert_eq!(decision, Decision::Opened { incident: fresh });
    assert_eq!(store.find_open_by_alert("grafana", "a1"), Some(fresh));
    let unused = decide_with_id(&mut store, firing("a2"), at(2), IncidentId(8));
    assert_eq!(unused, Decision::Attached { incident: fresh });
    assert!(store.get(IncidentId(8)).is_none());
}

#[test]
fn a_recorded_triage_leaves_everything_else_alone() {
    let mut store = InMemoryStore::new();
    let incident = opened(decide(&mut store, firing("a1"), at(1)));
    store.set_triage(incident, stub_triage());
    let held = store.get(incident).expect("present");
    assert_eq!(held.state, IncidentState::Open);
    assert_eq!(held.last_activity_at, at(1));
    assert_eq!(held.alerts.len(), 1);
}
