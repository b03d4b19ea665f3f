use oncall_ai::alert::{Alert, AlertStatus};
use oncall_ai::incident::worker::{
    describe_decision, handle_alert, handle_alert_at, record_triage,
    request_investigation, request_triage, Event, Handled, Phase, Worker,
};
use oncall_ai::incident::{
    Decision, InMemoryStore, IncidentId, IncidentState, IncidentStore, Triaged, TRIAGED_CAPACITY,
};
use oncall_ai::text_map::Labels;
use oncall_ai::time::{TimeSpan, Timestamp, MIN_SECS};
use oncall_ai::triage::{Severity, TriageResult};

const DAY: i64 = 86_400;

fn at(secs: i64) -> Timestamp {
    Timestamp::new(secs, 0).expect("valid time")
}

fn firing(id: &str) -> Alert {
    let mut labels = Labels::new();
    labels.insert("alertname".to_owned(), "CheckoutDbLatency".to_owned());
    Alert {
        source: "grafana",
        source_alert_id: id.to_owned(),
        labels,
        annotations: Labels::new(),
        starts_at: at(0),
        status: AlertStatus::Firing,
        raw_payload: "{}".to_owned(),
    }
}

fn triaged(incident: IncidentId) -> Triaged {
    Triaged {
        incident,
        result: TriageResult {
            severity: Severity::P1,
            service: Some("checkout".to_owned()),
            tags: Vec::new(),
            summary: "stub".to_owned(),
        },
    }
}

/// Hands the worker an alert that was taken at `now`, with incidents living for `ttl` seconds.
fn take(
    worker: &mut Worker,
    store: &mut InMemoryStore,
    alert: Alert,
    now: i64,
    ttl: i64,
) -> Handled {
    let event = Event::Alert(Some((alert, at(now), at(now - ttl), IncidentId::new())));
    worker.step(store, event).expect("a serving worker handles alerts")
}

#[test]
fn only_new_incidents_request_triage() {
    let (mut worker, mut store) = (Worker::new(), InMemoryStore::new());
    let first = take(&mut worker, &mut store, firing("a1"), 1, DAY);
    let again = take(&mut worker, &mut store, firing("a1"), 2, DAY);
    let sibling = take(&mut worker, &mut store, firing("a2"), 3, DAY);

    let request = first.request.expect("one request");
    assert_eq!(request.alert.source_alert_id, "a1");
    assert_eq!(first.decision, Decision::Opened { incident: request.incident });
    assert!(
        again.request.is_none() && sibling.request.is_none(),
        "duplicate and attached alerts must not re-request triage"
    );
    assert_eq!(worker.dropped, 0);
}

#[test]
fn triaged_results_are_recorded_without_new_requests() {
    let (mut worker, mut store) = (Worker::new(), InMemoryStore::new());
    let first = take(&mut worker, &mut store, firing("a1"), 1, DAY);
    let incident = first.request.expect("request").incident;

    let recorded = worker.step(&mut store, Event::Triaged(Some(triaged(incident))));
    assert!(recorded.is_none());
    let held = store.get(incident).expect("present");
    assert_eq!(held.triage.as_ref().expect("recorded").summary, "stub");

    let mut second = firing("b1");
    second.labels.insert("shard".to_owned(), "b".to_owned());
    let second = take(&mut worker, &mut store, second, 2, DAY);
    assert_eq!(second.request.expect("second request").alert.source_alert_id, "b1");
}

#[test]
fn shutdown_drains_and_counts_unprocessed_alerts() {
    let (mut worker, mut store) = (Worker::new(), InMemoryStore::new());
    assert!(worker.step(&mut store, Event::Shutdown).is_none());
    assert_eq!(worker.phase, Phase::DrainingTriaged);
    worker.step(&mut store, Event::Triaged(None));
    assert_eq!(worker.phase, Phase::DrainingAlerts);
    for _ in 0..2 {
        let event = Event::Alert(Some((firing("a1"), at(1), at(0), IncidentId::new())));
        assert!(worker.step(&mut store, event).is_none());
    }
    worker.step(&mut store, Event::Alert(None));
    assert_eq!(worker.phase, Phase::Stopped);
    assert_eq!(worker.dropped, 2, "queued alerts count as dropped on shutdown");
    assert_eq!(store.find_open_by_alert("grafana", "a1"), None, "dropped alerts open nothing");
}

#[test]
fn results_that_are_still_queued_are_recorded_while_draining() {
    let (mut worker, mut store) = (Worker::new(), InMemoryStore::new());
    let first = take(&mut worker, &mut store, firing("a1"), 1, DAY);
    let incident = first.request.expect("request").incident;
    worker.step(&mut store, Event::Alert(None));
    assert_eq!(worker.phase, Phase::DrainingTriaged);
    worker.step(&mut store, Event::Triaged(Some(triaged(incident))));
    assert!(store.get(incident).expect("present").triage.is_some());
}

#[test]
fn a_closed_queue_of_results_ends_the_service() {
    let (mut worker, mut store) = (Worker::new(), InMemoryStore::new());
    worker.step(&mut store, Event::Triaged(None));
    assert_eq!(worker.phase, Phase::DrainingTriaged);
}

#[test]
fn resolves_flow_through_without_triage_requests() {
    let (mut worker, mut store) = (Worker::new(), InMemoryStore::new());
    let mut resolve = firing("never-seen");
    resolve.status = AlertStatus::Resolved;
    let orphan = take(&mut worker, &mut store, resolve, 1, DAY);
    assert_eq!(orphan.decision, Decision::DroppedResolve);
    assert!(orphan.request.is_none(), "the orphan resolve must not reach triage");
    let request = take(&mut worker, &mut store, firing("a1"), 2, DAY).request;
    assert_eq!(request.expect("request for the firing alert").alert.source_alert_id, "a1");
}

#[test]
fn zero_ttl_expires_before_dedupe_so_refires_reopen() {
    let (mut worker, mut store) = (Worker::new(), InMemoryStore::new());
    let first = take(&mut worker, &mut store, firing("a1"), 1, 0).request.expect("first request");
    let refire = take(&mut worker, &mut store, firing("a1"), 2, 0);
    assert_eq!(refire.expired, vec![first.incident]);
    let second = refire.request.expect("second request");
    assert_ne!(
        first.incident, second.incident,
        "the sweep must expire the first incident before dedupe sees the refire"
    );
}

#[test]
fn an_alert_is_handled_at_its_time() {
    let mut store = InMemoryStore::new();
    let handled = handle_alert_at(&mut store, firing("a1"), at(9), at(5), IncidentId(3));
    assert!(handled.expired.is_empty());
    assert_eq!(handled.decision, Decision::Opened { incident: IncidentId(3) });
    assert_eq!(store.get(IncidentId(3)).expect("opened").opened_at, at(9));
}

#[test]
fn an_alert_is_handled_by_the_clock() {
    let mut store = InMemoryStore::new();
    let handled = handle_alert(&mut store, firing("a1"), TimeSpan::from_secs(60));
    let handled = handled.expect("the calendar reaches back a minute");
    let request = handled.request.expect("a new incident asks for triage");
    let held = store.get(request.incident).expect("opened");
    assert_eq!(held.state, IncidentState::Open);
    assert!(held.opened_at.secs() > 1_700_000_000);
}

#[test]
fn a_span_that_leaves_the_calendar_changes_nothing() {
    let mut store = InMemoryStore::new();
    let span = TimeSpan::new(-MIN_SECS * 2, 0).expect("valid span");
    assert!(handle_alert(&mut store, firing("a1"), span).is_none());
    assert_eq!(store.find_open_by_alert("grafana", "a1"), None);
}

#[test]
fn triage_is_asked_for_the_first_alert_of_an_incident() {
    let mut store = InMemoryStore::new();
    assert!(request_triage(&store, IncidentId(1)).is_none());
    handle_alert_at(&mut store, firing("a1"), at(1), at(0), IncidentId(1));
    handle_alert_at(&mut store, firing("a2"), at(2), at(0), IncidentId(2));
    let request = request_triage(&store, IncidentId(1)).expect("the incident holds alerts");
    assert_eq!(request.alert.source_alert_id, "a1");
    record_triage(&mut store, &triaged(IncidentId(1)));
    assert!(store.get(IncidentId(1)).expect("opened").triage.is_some());
}

#[test]
fn an_investigation_is_asked_with_the_first_alert_and_the_triage() {
    let mut store = InMemoryStore::new();
    assert!(request_investigation(&store, triaged(IncidentId(1))).is_none());
    let _ = handle_alert_at(&mut store, firing("a1"), at(1), at(0), IncidentId(1));
    let _ = handle_alert_at(&mut store, firing("a2"), at(2), at(0), IncidentId(2));
    let request =
        request_investigation(&store, triaged(IncidentId(1))).expect("the incident holds alerts");
    assert_eq!(request.incident, IncidentId(1));
    assert_eq!(request.alert.source_alert_id, "a1");
    assert_eq!(request.triage.severity, Severity::P1);
    assert_eq!(request.triage.service.as_deref(), Some("checkout"));
}

#[test]
fn decisions_are_told_in_the_log() {
    let incident = IncidentId(1);
    let told = |decision: Decision| {
        let note = describe_decision(&decision);
        (note.decision, note.rule, note.reason, note.message)
    };
    assert_eq!(told(Decision::Opened { incident }), ("opened", None, None, "incident opened"));
    assert_eq!(
        told(Decision::Attached { incident }),
        ("attached", Some("fingerprint"), None, "alert attached to incident")
    );
    assert_eq!(
        told(Decision::Updated { incident }),
        ("updated", Some("exact"), None, "alert updated in incident")
    );
    assert_eq!(
        told(Decision::Closed { incident }),
        ("closed", Some("exact"), Some("resolved"), "incident closed")
    );
    assert_eq!(
        told(Decision::DroppedResolve),
        ("dropped_resolve", None, None, "resolve matched no open incident, dropped")
    );
    assert_eq!(TRIAGED_CAPACITY, 32);
}
