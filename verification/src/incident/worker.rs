//! The incident worker: one at a time, it takes alerts and triage results from its queues.
use super::dedupe::{decide_with_id, decided, Decision};
use super::laws::{
    law_decide_keeps_consistency, law_decision_touches_only_its_incident,
    law_expiry_closes_exactly_the_idle, law_expiry_keeps_consistency,
    law_idle_goes_by_the_last_activity,
};
use super::store::{ids_ascend, IncidentStore, StoreView};
use super::{is_version_7, CloseReason, IncidentId, IncidentState, IncidentView};
use crate::alert::{Alert, AlertView};
use crate::investigation::InvestigationRequest;
use crate::text::option_str;
use crate::time::{time_less_span, time_parts, TimeSpan, Timestamp, MIN_SECS};
use crate::triage::{TriageResult, TriageView};
use vstd::prelude::*;

verus! {

/// How many triage results may wait to be recorded.
pub const TRIAGED_CAPACITY: usize = 32;

/// A request to triage the alert that opened an incident.
#[derive(Debug)]
pub struct TriageRequest {
    pub incident: IncidentId,
    pub alert: Alert,
}

/// What triage made of an incident.
#[derive(Debug)]
pub struct Triaged {
    pub incident: IncidentId,
    pub result: TriageResult,
}

/// What an optional request asks: to triage this alert for this incident.
pub open spec fn request_view(request: Option<TriageRequest>) -> Option<(IncidentId, AlertView)> {
    match request {
        Some(r) => Some((r.incident, r.alert@)),
        None => None,
    }
}

/// What became of one alert: which incidents were closed for being idle before it was looked at,
/// what was decided of it, and whether triage is to be asked.
pub struct Handled {
    pub expired: Vec<IncidentId>,
    pub decision: Decision,
    pub request: Option<TriageRequest>,
}

/// What handling an alert does to a store: first the incidents that are idle since `cutoff` are
/// closed, then the alert is decided on. Triage is asked for the first alert of an incident that
/// was opened, and for no other.
pub open spec fn handles(
    before: StoreView,
    after: StoreView,
    alert: AlertView,
    now: Timestamp,
    cutoff: Timestamp,
    fresh: IncidentId,
    handled: Handled,
) -> bool {
    let swept = before.expired(before.idle(cutoff), now);
    &&& ids_ascend(handled.expired@)
    &&& handled.expired@.to_set() == before.idle(cutoff)
    &&& (after, handled.decision) == decided(swept, alert, now, fresh)
    &&& request_view(handled.request) == match handled.decision {
        Decision::Opened { incident } => Some((incident, alert)),
        _ => None,
    }
}

/// The request to triage an incident: its first alert, if it has one.
pub fn request_triage<S: IncidentStore>(store: &S, incident: IncidentId) -> (request: Option<
    TriageRequest,
>)
    requires
        store.wf(),
    ensures
        request_view(request) == if store.model().incidents.contains_key(incident)
            && store.model().incidents[incident].alerts.len() > 0 {
            Some((incident, store.model().incidents[incident].alerts[0]))
        } else {
            None
        },
{
    match store.get(incident) {
        Some(held) => {
            if held.alerts.len() > 0 {
                assert(held@.alerts[0] == held.alerts[0]@);
                Some(TriageRequest { incident, alert: held.alerts[0].clone() })
            } else {
                None
            }
        },
        None => None,
    }
}

/// What an optional request asks: to investigate this incident, given its alert and its triage.
pub open spec fn investigation_view(request: Option<InvestigationRequest>) -> Option<
    (IncidentId, AlertView, TriageView),
> {
    match request {
        Some(r) => Some((r.incident, r.alert@, r.triage@)),
        None => None,
    }
}

/// The request to investigate an incident that was triaged: its first alert, if it has one, and what
/// triage made of it.
pub fn request_investigation<S: IncidentStore>(store: &S, triaged: Triaged) -> (request: Option<
    InvestigationRequest,
>)
    requires
        store.wf(),
    ensures
        investigation_view(request) == if store.model().incidents.contains_key(triaged.incident)
            && store.model().incidents[triaged.incident].alerts.len() > 0 {
            Some(
                (
                    triaged.incident,
                    store.model().incidents[triaged.incident].alerts[0],
                    triaged.result@,
                ),
            )
        } else {
            None
        },
{
    match request_triage(store, triaged.incident) {
        Some(opener) => Some(
            InvestigationRequest {
                incident: opener.incident,
                alert: opener.alert,
                triage: triaged.result,
            },
        ),
        None => None,
    }
}

/// Handles one alert at the time `now`. Incidents without activity since `cutoff` are closed
/// first, and an incident that the alert opens gets the id `fresh`.
pub fn handle_alert_at<S: IncidentStore>(
    store: &mut S,
    alert: Alert,
    now: Timestamp,
    cutoff: Timestamp,
    fresh: IncidentId,
) -> (handled: Handled)
    requires
        old(store).wf(),
    ensures
        final(store).wf(),
        handles(
            old(store).model(),
            final(store).model(),
            alert@,
            now,
            cutoff,
            fresh,
            handled,
        ),
{
    let expired: Vec<IncidentId> = store.expire_idle_before(cutoff, now);
    let decision: Decision = decide_with_id(store, alert, now, fresh);
    let request: Option<TriageRequest> = match decision {
        Decision::Opened { incident } => request_triage(store, incident),
        _ => None,
    };
    Handled { expired, decision, request }
}

/// Handles one alert now. Incidents that have been idle for `idle_ttl` are closed first.
///
/// Returns `None`, with the store unchanged, if the calendar does not reach back that far. It does
/// for every span up to the one from the first second of the calendar to the Unix epoch.
pub fn handle_alert<S: IncidentStore>(
    store: &mut S,
    alert: Alert,
    idle_ttl: TimeSpan,
) -> (handled: Option<Handled>)
    requires
        old(store).wf(),
    ensures
        final(store).wf(),
        0 <= idle_ttl.secs() < -MIN_SECS ==> handled is Some,
        match handled {
            Some(h) => exists|now: Timestamp, cutoff: Timestamp, fresh: IncidentId|
                is_version_7(fresh.0) && now.nanos() < 1_000_000_000 && time_less_span(
                    now.secs(),
                    now.nanos(),
                    idle_ttl.secs(),
                    idle_ttl.nanos(),
                ) == time_parts(Some(cutoff)) && #[trigger] handles(
                    old(store).model(),
                    final(store).model(),
                    alert@,
                    now,
                    cutoff,
                    fresh,
                    h,
                ),
            None => final(store).model() == old(store).model() && exists|now: Timestamp|
                now.nanos() < 1_000_000_000 && #[trigger] time_less_span(
                    now.secs(),
                    now.nanos(),
                    idle_ttl.secs(),
                    idle_ttl.nanos(),
                ) is None,
        },
{
    let now: Timestamp = Timestamp::now();
    match now.checked_sub(idle_ttl) {
        Some(cutoff) => Some(handle_alert_at(store, alert, now, cutoff, IncidentId::new())),
        None => None,
    }
}

/// Records what triage made of an incident.
pub fn record_triage<S: IncidentStore>(store: &mut S, triaged: &Triaged)
    requires
        old(store).wf(),
    ensures
        final(store).wf(),
        final(store).model() == old(store).model().with_triage(triaged.incident, triaged.result@),
{
    store.set_triage(triaged.incident, triaged.result.clone());
}

/// How a decision is told in the log.
#[derive(Clone, Copy, Debug)]
pub struct DecisionNote {
    /// The name of the decision.
    pub decision: &'static str,
    /// The rule by which an open incident was found, if one was.
    pub rule: Option<&'static str>,
    /// Why an incident was closed, if one was.
    pub reason: Option<&'static str>,
    /// The decision in words.
    pub message: &'static str,
}

/// The name of a decision.
pub open spec fn decision_name(decision: Decision) -> Seq<char> {
    match decision {
        Decision::Opened { .. } => "opened"@,
        Decision::Attached { .. } => "attached"@,
        Decision::Updated { .. } => "updated"@,
        Decision::Closed { .. } => "closed"@,
        Decision::DroppedResolve => "dropped_resolve"@,
    }
}

/// The rule by which a decision found an open incident: `exact` by the alert itself,
/// `fingerprint` by its labels.
pub open spec fn decision_rule(decision: Decision) -> Option<Seq<char>> {
    match decision {
        Decision::Opened { .. } => None,
        Decision::Attached { .. } => Some("fingerprint"@),
        Decision::Updated { .. } => Some("exact"@),
        Decision::Closed { .. } => Some("exact"@),
        Decision::DroppedResolve => None,
    }
}

/// A decision in words.
pub open spec fn decision_message(decision: Decision) -> Seq<char> {
    match decision {
        Decision::Opened { .. } => "incident opened"@,
        Decision::Attached { .. } => "alert attached to incident"@,
        Decision::Updated { .. } => "alert updated in incident"@,
        Decision::Closed { .. } => "incident closed"@,
        Decision::DroppedResolve => "resolve matched no open incident, dropped"@,
    }
}

/// How `decision` is told in the log.
pub fn describe_decision(decision: &Decision) -> (note: DecisionNote)
    ensures
        note.decision@ == decision_name(*decision),
        option_str(note.rule) == decision_rule(*decision),
        option_str(note.reason) == if decision is Closed {
            Some(CloseReason::Resolved.text())
        } else {
            None
        },
        note.message@ == decision_message(*decision),
{
    match decision {
        Decision::Opened { .. } => DecisionNote {
            decision: "opened",
            rule: None,
            reason: None,
            message: "incident opened",
        },
        Decision::Attached { .. } => DecisionNote {
            decision: "attached",
            rule: Some("fingerprint"),
            reason: None,
            message: "alert attached to incident",
        },
        Decision::Updated { .. } => DecisionNote {
            decision: "updated",
            rule: Some("exact"),
            reason: None,
            message: "alert updated in incident",
        },
        Decision::Closed { .. } => DecisionNote {
            decision: "closed",
            rule: Some("exact"),
            reason: Some(CloseReason::Resolved.as_str()),
            message: "incident closed",
        },
        Decision::DroppedResolve => DecisionNote {
            decision: "dropped_resolve",
            rule: None,
            reason: None,
            message: "resolve matched no open incident, dropped",
        },
    }
}

/// What the worker does next.
#[derive(Clone, Copy, PartialEq, Eq, Structural, Debug)]
pub enum Phase {
    /// It waits for a shutdown, a triage result or an alert, and takes the first of these that is
    /// there, in this order.
    Serving,
    /// It takes the triage results that are still queued.
    DrainingTriaged,
    /// It counts the alerts that are still queued, and drops them.
    DrainingAlerts,
    /// It is done.
    Stopped,
}

/// What the worker hears. A queue that is closed, or empty while it is drained, gives `None`.
pub enum Event {
    Shutdown,
    Triaged(Option<Triaged>),
    /// An alert, the time at which it was taken, the time before which incidents count as idle,
    /// and the id for an incident that it may open.
    Alert(Option<(Alert, Timestamp, Timestamp, IncidentId)>),
}

/// The state of the worker besides its store.
#[derive(Debug)]
pub struct Worker {
    pub phase: Phase,
    /// How many alerts were dropped.
    pub dropped: usize,
}

impl Worker {
    /// A worker that has not started.
    pub fn new() -> (worker: Worker)
        ensures
            worker.phase == Phase::Serving,
            worker.dropped == 0,
    {
        Worker { phase: Phase::Serving, dropped: 0 }
    }

    /// The phase after an event.
    pub open spec fn next_phase(phase: Phase, event: Event) -> Phase {
        match (phase, event) {
            (Phase::Serving, Event::Shutdown) => Phase::DrainingTriaged,
            (Phase::Serving, Event::Triaged(None)) => Phase::DrainingTriaged,
            (Phase::Serving, Event::Alert(None)) => Phase::DrainingTriaged,
            (Phase::DrainingTriaged, Event::Triaged(None)) => Phase::DrainingAlerts,
            (Phase::DrainingAlerts, Event::Alert(None)) => Phase::Stopped,
            _ => phase,
        }
    }

    /// The event is an alert that the worker drops and counts.
    pub open spec fn drops(phase: Phase, event: Event) -> bool {
        phase == Phase::DrainingAlerts && event matches Event::Alert(Some(_))
    }

    /// Takes one event. While serving, triage results are recorded and alerts are handled; while
    /// draining, triage results are still recorded and alerts are counted as dropped. An event
    /// that the phase does not wait for is ignored.
    pub fn step<S: IncidentStore>(&mut self, store: &mut S, event: Event) -> (handled: Option<
        Handled,
    >)
        requires
            old(store).wf(),
            Worker::drops(old(self).phase, event) ==> old(self).dropped < usize::MAX,
        ensures
            final(store).wf(),
            final(self).phase == Worker::next_phase(old(self).phase, event),
            final(self).dropped == old(self).dropped + if Worker::drops(old(self).phase, event) {
                1int
            } else {
                0
            },
            match (old(self).phase, event) {
                (Phase::Serving, Event::Alert(Some(alert))) => handled is Some && handles(
                    old(store).model(),
                    final(store).model(),
                    alert.0@,
                    alert.1,
                    alert.2,
                    alert.3,
                    handled->0,
                ),
                (Phase::Serving, Event::Triaged(Some(triaged))) => handled is None
                    && final(store).model() == old(store).model().with_triage(
                    triaged.incident,
                    triaged.result@,
                ),
                (Phase::DrainingTriaged, Event::Triaged(Some(triaged))) => handled is None
                    && final(store).model() == old(store).model().with_triage(
                    triaged.incident,
                    triaged.result@,
                ),
                _ => handled is None && final(store).model() == old(store).model(),
            },
    {
        match self.phase {
            Phase::Serving => match event {
                Event::Shutdown => {
                    self.phase = Phase::DrainingTriaged;
                    None
                },
                Event::Triaged(Some(triaged)) => {
                    record_triage(store, &triaged);
                    None
                },
                Event::Triaged(None) => {
                    self.phase = Phase::DrainingTriaged;
                    None
                },
                Event::Alert(Some((alert, now, cutoff, fresh))) => {
                    Some(handle_alert_at(store, alert, now, cutoff, fresh))
                },
                Event::Alert(None) => {
                    self.phase = Phase::DrainingTriaged;
                    None
                },
            },
            Phase::DrainingTriaged => match event {
                Event::Triaged(Some(triaged)) => {
                    record_triage(store, &triaged);
                    None
                },
                Event::Triaged(None) => {
                    self.phase = Phase::DrainingAlerts;
                    None
                },
                _ => None,
            },
            Phase::DrainingAlerts => match event {
                Event::Alert(Some(_)) => {
                    self.dropped = self.dropped + 1;
                    None
                },
                Event::Alert(None) => {
                    self.phase = Phase::Stopped;
                    None
                },
                _ => None,
            },
            Phase::Stopped => None,
        }
    }
}

/// The phase and the number of dropped alerts after these events, one after another.
pub open spec fn after_events(phase: Phase, dropped: nat, events: Seq<Event>) -> (Phase, nat)
    decreases events.len(),
{
    if events.len() == 0 {
        (phase, dropped)
    } else {
        let (before, count) = after_events(phase, dropped, events.drop_last());
        let event = events.last();
        (
            Worker::next_phase(before, event),
            count + if Worker::drops(before, event) {
                1nat
            } else {
                0nat
            },
        )
    }
}

/// After a shutdown the triage results that are still queued are all taken, and none counts as
/// dropped; then every alert that is still queued is dropped and counts once, and the worker is done.
pub proof fn law_shutdown_drops_the_queued_alerts(
    dropped: nat,
    results: Seq<Event>,
    alerts: Seq<Event>,
)
    requires
        forall|i: int|
            0 <= i < results.len() ==> (#[trigger] results[i] matches Event::Triaged(Some(_))),
        forall|i: int|
            0 <= i < alerts.len() ==> (#[trigger] alerts[i] matches Event::Alert(Some(_))),
    ensures
        ({
            let shut = Worker::next_phase(Phase::Serving, Event::Shutdown);
            let (taken, unchanged) = after_events(shut, dropped, results);
            let draining = Worker::next_phase(taken, Event::Triaged(None));
            let (drained, counted) = after_events(draining, unchanged, alerts);
            &&& unchanged == dropped
            &&& counted == dropped + alerts.len()
            &&& Worker::next_phase(drained, Event::Alert(None)) == Phase::Stopped
        }),
{
    lemma_results_are_taken(dropped, results);
    lemma_alerts_are_counted(dropped, alerts);
}

/// While the triage results are drained, the phase stays and nothing is dropped.
proof fn lemma_results_are_taken(dropped: nat, results: Seq<Event>)
    requires
        forall|i: int|
            0 <= i < results.len() ==> (#[trigger] results[i] matches Event::Triaged(Some(_))),
    ensures
        after_events(Phase::DrainingTriaged, dropped, results) == (Phase::DrainingTriaged, dropped),
    decreases results.len(),
{
    if results.len() > 0 {
        lemma_results_are_taken(dropped, results.drop_last());
    }
}

/// While the alerts are drained, the phase stays and each is counted.
proof fn lemma_alerts_are_counted(dropped: nat, alerts: Seq<Event>)
    requires
        forall|i: int|
            0 <= i < alerts.len() ==> (#[trigger] alerts[i] matches Event::Alert(Some(_))),
    ensures
        after_events(Phase::DrainingAlerts, dropped, alerts) == (
            Phase::DrainingAlerts,
            dropped + alerts.len(),
        ),
    decreases alerts.len(),
{
    if alerts.len() > 0 {
        lemma_alerts_are_counted(dropped, alerts.drop_last());
    }
}

/// Before an alert is looked at, the open incidents without activity since the cutoff are closed for
/// being idle: exactly these are reported, and they stay closed. An incident with later activity
/// stays as it was, unless the decision names it.
pub proof fn law_idle_incidents_are_closed_before_the_alert(
    before: StoreView,
    after: StoreView,
    alert: AlertView,
    now: Timestamp,
    cutoff: Timestamp,
    fresh: IncidentId,
    handled: Handled,
    id: IncidentId,
)
    requires
        before.consistent(),
        !before.incidents.contains_key(fresh),
        before.incidents.contains_key(id),
        handles(before, after, alert, now, cutoff, fresh, handled),
    ensures
        after.consistent(),
        ({
            let last = before.incidents[id].last_activity_at;
            let idle = before.incidents[id].state == IncidentState::Open && (last.secs()
                < cutoff.secs() || (last.secs() == cutoff.secs() && last.nanos()
                < cutoff.nanos()));
            let named = match handled.decision {
                Decision::Opened { incident } => incident == id,
                Decision::Attached { incident } => incident == id,
                Decision::Updated { incident } => incident == id,
                Decision::Closed { incident } => incident == id,
                Decision::DroppedResolve => false,
            };
            &&& handled.expired@.contains(id) <==> idle
            &&& idle ==> after.incidents[id] == (IncidentView {
                state: IncidentState::Closed { reason: CloseReason::IdleTtl, closed_at: now },
                ..before.incidents[id]
            })
            &&& !idle && !named ==> after.incidents[id] == before.incidents[id]
        }),
{
    let swept = before.expired(before.idle(cutoff), now);
    law_expiry_keeps_consistency(before, cutoff, now);
    law_expiry_closes_exactly_the_idle(before, cutoff, now, id);
    law_idle_goes_by_the_last_activity(before, cutoff, id);
    assert(!swept.incidents.contains_key(fresh));
    law_decide_keeps_consistency(swept, alert, now, fresh);
    law_decision_touches_only_its_incident(swept, alert, now, fresh, id);
    assert(handled.expired@.contains(id) <==> handled.expired@.to_set().contains(id));
}

/// Triage is asked exactly for an incident that the alert opened, and is given that alert, which is
/// the first of the incident.
pub proof fn law_triage_is_asked_for_what_was_opened(
    before: StoreView,
    after: StoreView,
    alert: AlertView,
    now: Timestamp,
    cutoff: Timestamp,
    fresh: IncidentId,
    handled: Handled,
)
    requires
        handles(before, after, alert, now, cutoff, fresh, handled),
    ensures
        handled.request is Some <==> handled.decision is Opened,
        handled.request matches Some(request) ==> {
            &&& handled.decision == (Decision::Opened { incident: request.incident })
            &&& request.alert@ == alert
            &&& after.incidents.contains_key(request.incident)
            &&& after.incidents[request.incident].alerts == seq![alert]
        },
{
}

/// While it serves, the worker takes every alert and every triage result, and drops none; only a
/// shutdown or a queue that is closed ends that.
pub proof fn law_serving_drops_nothing(dropped: nat, events: Seq<Event>)
    requires
        forall|i: int|
            0 <= i < events.len() ==> (#[trigger] events[i] matches Event::Alert(Some(_))) || (
            events[i] matches Event::Triaged(Some(_))),
    ensures
        after_events(Phase::Serving, dropped, events) == (Phase::Serving, dropped),
    decreases events.len(),
{
    if events.len() > 0 {
        let before = events.drop_last();
        assert forall|i: int| 0 <= i < before.len() implies (
        #[trigger] before[i] matches Event::Alert(Some(_))) || (before[i] matches Event::Triaged(
            Some(_),
        )) by {
            assert(before[i] == events[i]);
        }
        law_serving_drops_nothing(dropped, before);
        assert(events.last() == events[events.len() - 1]);
    }
}

/// The log tells the five decisions apart, and says `exact` where the alert itself was known,
/// `fingerprint` where only its labels were.
pub proof fn law_log_tells_decisions_apart(a: Decision, b: Decision)
    ensures
        decision_name(a) == decision_name(b) ==> (a is Opened <==> b is Opened) && (
        a is Attached <==> b is Attached) && (a is Updated <==> b is Updated) && (
        a is Closed <==> b is Closed),
        decision_rule(a) == Some("exact"@) <==> a is Updated || a is Closed,
        decision_rule(a) == Some("fingerprint"@) <==> a is Attached,
{
    reveal_strlit("opened");
    reveal_strlit("attached");
    reveal_strlit("updated");
    reveal_strlit("closed");
    reveal_strlit("dropped_resolve");
    reveal_strlit("exact");
    reveal_strlit("fingerprint");
    assert("opened"@[0] == 'o');
    assert("attached"@[0] == 'a');
    assert("updated"@[0] == 'u');
    assert("closed"@[0] == 'c');
    assert("dropped_resolve"@[0] == 'd');
    assert("exact"@[0] == 'e');
    assert("fingerprint"@[0] == 'f');
}

/// An incident that was triaged is investigated by the alert that opened it, its first, whatever
/// joined it later, and by what triage made of it; it is not investigated only where it is not in the
/// store or has no alert.
pub proof fn law_investigation_is_given_the_first_alert<S: IncidentStore>(
    store: S,
    triaged: Triaged,
    request: Option<InvestigationRequest>,
)
    requires
        call_ensures(request_investigation::<S>, (&store, triaged), request),
    ensures
        request is Some <==> store.model().incidents.contains_key(triaged.incident)
            && store.model().incidents[triaged.incident].alerts.len() > 0,
        request matches Some(asked) ==> {
            &&& asked.incident == triaged.incident
            &&& asked.alert@ == store.model().incidents[triaged.incident].alerts[0]
            &&& asked.triage@ == triaged.result@
        },
{
}

/// A shutdown, and a queue that is closed, end the serving: the triage results that are still queued
/// are taken first, then the alerts. An alert is dropped only once the triage results are all taken,
/// and a worker that is done stays done.
pub proof fn law_serving_ends_with_a_closed_queue(phase: Phase, event: Event)
    ensures
        event is Shutdown || event == Event::Triaged(None) || event == Event::Alert(None)
            ==> Worker::next_phase(Phase::Serving, event) == Phase::DrainingTriaged,
        Worker::drops(phase, event) <==> phase == Phase::DrainingAlerts && event is Alert
            && event != Event::Alert(None),
        Worker::next_phase(Phase::DrainingTriaged, event) == Phase::DrainingAlerts <==> event
            == Event::Triaged(None),
        Worker::next_phase(Phase::DrainingAlerts, event) == Phase::Stopped <==> event
            == Event::Alert(None),
        Worker::next_phase(Phase::Stopped, event) == Phase::Stopped,
{
}

} // verus!
