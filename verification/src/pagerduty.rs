//! PagerDuty's webhooks.
use crate::alert::{Alert, AlertStatus, AlertView, ParseError};
use crate::grafana::alerts_view;
use crate::incident::dedupe::{decided, Decision};
use crate::incident::laws::{
    law_closed_only_with_every_alert_resolved, law_decide_keeps_consistency,
    law_decision_names_the_incident, law_event_sets_the_status_of_its_alert,
};
use crate::incident::store::StoreView;
use crate::incident::IncidentId;
use crate::text::same_text;
use crate::text_map::Labels;
use crate::time::Timestamp;
use vstd::prelude::*;

verus! {

/// The PagerDuty alert source.
#[derive(Clone, Copy, Debug)]
pub struct Pagerduty;

/// PagerDuty's incident object.
#[derive(Debug)]
pub struct PagerdutyIncident {
    pub id: String,
    pub created_at: Timestamp,
    pub title: String,
    /// The name of the service.
    pub service: String,
    pub urgency: String,
    /// The name of the priority.
    pub priority: Option<String>,
}

/// One event from PagerDuty.
#[derive(Debug)]
pub struct PagerdutyEvent {
    pub event_type: String,
    /// The incident that the event is about, or why there is none.
    pub data: Result<PagerdutyIncident, ParseError>,
    /// The whole event, as compact JSON.
    pub raw: String,
}

/// The status that an event of this type gives an alert; `None` where the event says nothing of it.
pub open spec fn event_status(event_type: Seq<char>) -> Option<AlertStatus> {
    if event_type == "incident.triggered"@ || event_type == "incident.reopened"@ || event_type
        == "incident.unacknowledged"@ {
        Some(AlertStatus::Firing)
    } else if event_type == "incident.acknowledged"@ {
        Some(AlertStatus::Acknowledged)
    } else if event_type == "incident.resolved"@ {
        Some(AlertStatus::Resolved)
    } else {
        None
    }
}

/// The status that an event of this type gives an alert.
pub fn status_for(event_type: &str) -> (status: Option<AlertStatus>)
    ensures
        status == event_status(event_type@),
{
    if same_text(event_type, "incident.triggered") || same_text(event_type, "incident.reopened")
        || same_text(event_type, "incident.unacknowledged") {
        Some(AlertStatus::Firing)
    } else if same_text(event_type, "incident.acknowledged") {
        Some(AlertStatus::Acknowledged)
    } else if same_text(event_type, "incident.resolved") {
        Some(AlertStatus::Resolved)
    } else {
        None
    }
}

/// The labels of the alert: its service, its urgency, and its priority where it has one.
pub open spec fn incident_labels(incident: PagerdutyIncident) -> Map<Seq<char>, Seq<char>> {
    let labels = Map::empty().insert("service"@, incident.service@).insert(
        "urgency"@,
        incident.urgency@,
    );
    match incident.priority {
        Some(priority) => labels.insert("priority"@, priority@),
        None => labels,
    }
}

/// The alert that an event stands for.
pub open spec fn normalized(
    incident: PagerdutyIncident,
    status: AlertStatus,
    raw: Seq<char>,
) -> AlertView {
    AlertView {
        source: "pagerduty"@,
        source_alert_id: incident.id@,
        labels: incident_labels(incident),
        annotations: Map::empty().insert("summary"@, incident.title@),
        starts_at: incident.created_at,
        status,
        raw_payload: raw,
    }
}

/// The alerts that an event stands for, or why it stands for none: one alert where the event says
/// something of an alert's status, none otherwise. What an event of the other types is about is not
/// looked at, so it may have any shape.
pub open spec fn event_alerts(event: PagerdutyEvent) -> Result<Seq<AlertView>, Seq<char>> {
    match event_status(event.event_type@) {
        None => Ok(Seq::empty()),
        Some(status) => match event.data {
            Err(error) => Err(error.message@),
            Ok(incident) => Ok(seq![normalized(incident, status, event.raw@)]),
        },
    }
}

impl Pagerduty {
    /// Returns the source name used in webhook URLs.
    pub fn name(&self) -> (name: &'static str)
        ensures
            name@ == "pagerduty"@,
    {
        "pagerduty"
    }

    /// Turns a delivery into alerts. `event` is the event that the delivery tells of, or why it
    /// tells of none; the raw payload of the alert is the whole event.
    pub fn parse(&self, event: Result<PagerdutyEvent, ParseError>) -> (alerts: Result<
        Vec<Alert>,
        ParseError,
    >)
        ensures
            alerts_view(alerts) == match event {
                Err(error) => Err(error.message@),
                Ok(event) => event_alerts(event),
            },
    {
        let event: PagerdutyEvent = match event {
            Ok(event) => event,
            Err(error) => return Err(error),
        };
        let status: AlertStatus = match status_for(event.event_type.as_str()) {
            Some(status) => status,
            None => {
                let none: Vec<Alert> = Vec::new();
                assert(crate::incident::alert_views(none@) =~= Seq::empty());
                return Ok(none);
            },
        };
        let incident: PagerdutyIncident = match event.data {
            Ok(incident) => incident,
            Err(error) => return Err(error),
        };
        let ghost expected = normalized(incident, status, event.raw@);
        let mut labels: Labels = Labels::new();
        labels.insert("service".to_owned(), incident.service);
        labels.insert("urgency".to_owned(), incident.urgency);
        if let Some(priority) = incident.priority {
            labels.insert("priority".to_owned(), priority);
        }
        let mut annotations: Labels = Labels::new();
        annotations.insert("summary".to_owned(), incident.title);
        let alerts: Vec<Alert> = vec![
            Alert {
                source: self.name(),
                source_alert_id: incident.id,
                labels,
                annotations,
                starts_at: incident.created_at,
                status,
                raw_payload: event.raw,
            },
        ];
        assert(alerts[0]@ == expected);
        assert(crate::incident::alert_views(alerts@) =~= seq![expected]);
        Ok(alerts)
    }
}

/// An event that stands for an alert stands for one, of the source `pagerduty` and with the id of
/// the incident, whatever the type of the event. The alert is labelled with the service, the
/// urgency and, where the incident has one, the priority, and with nothing else; its one annotation
/// is the title; it starts when the incident was created; and its payload is the whole event.
pub proof fn law_event_stands_for_its_incident(event: PagerdutyEvent, label: Seq<char>)
    requires
        event_alerts(event) matches Ok(alerts) && alerts.len() > 0,
    ensures
        event_alerts(event) matches Ok(alerts) && event.data matches Ok(incident) && {
            let alert = alerts[0];
            &&& alerts.len() == 1
            &&& alert.source == "pagerduty"@
            &&& alert.source_alert_id == incident.id@
            &&& alert.labels.contains_key(label) <==> (label == "service"@ || label == "urgency"@
                || (label == "priority"@ && incident.priority is Some))
            &&& alert.labels["service"@] == incident.service@
            &&& alert.labels["urgency"@] == incident.urgency@
            &&& incident.priority matches Some(priority) ==> alert.labels["priority"@] == priority@
            &&& alert.annotations.contains_key(label) <==> label == "summary"@
            &&& alert.annotations["summary"@] == incident.title@
            &&& alert.starts_at == incident.created_at
            &&& alert.raw_payload == event.raw@
        },
{
    reveal_strlit("service");
    reveal_strlit("urgency");
    reveal_strlit("priority");
    assert("service"@[0] != "urgency"@[0]);
    assert("service"@[0] != "priority"@[0]);
    assert("urgency"@[0] != "priority"@[0]);
}

/// Events about the same incident give alerts of the same identity, whatever their types: so the
/// alert of an event that triggers an incident and that of the event that resolves it are one.
pub proof fn law_events_of_one_incident_are_one_alert(first: PagerdutyEvent, second: PagerdutyEvent)
    requires
        first.data matches Ok(incident) && second.data matches Ok(other) && incident.id@
            == other.id@,
        event_alerts(first) matches Ok(alerts) && alerts.len() > 0,
        event_alerts(second) matches Ok(alerts) && alerts.len() > 0,
    ensures
        event_alerts(first) matches Ok(ours) && event_alerts(second) matches Ok(theirs)
            && ours[0].source == theirs[0].source && ours[0].source_alert_id
            == theirs[0].source_alert_id && ours[0].identity() == theirs[0].identity(),
{
    law_event_stands_for_its_incident(first, Seq::empty());
    law_event_stands_for_its_incident(second, Seq::empty());
}

/// Events about different incidents give different alerts.
pub proof fn law_events_of_two_incidents_are_two_alerts(
    first: PagerdutyEvent,
    second: PagerdutyEvent,
)
    requires
        first.data matches Ok(incident) && second.data matches Ok(other) && incident.id@
            != other.id@,
        event_alerts(first) matches Ok(alerts) && alerts.len() > 0,
        event_alerts(second) matches Ok(alerts) && alerts.len() > 0,
    ensures
        event_alerts(first) matches Ok(ours) && event_alerts(second) matches Ok(theirs)
            && ours[0].identity() != theirs[0].identity(),
{
    law_event_stands_for_its_incident(first, Seq::empty());
    law_event_stands_for_its_incident(second, Seq::empty());
}

/// An event stands for a resolved alert exactly if it resolves its incident, for an acknowledged one
/// exactly if it acknowledges it, and for a firing one exactly if it triggers it, reopens it or takes
/// an acknowledgement back; any other event stands for none, whatever it is about.
pub proof fn law_status_follows_the_event(event: PagerdutyEvent, incident: PagerdutyIncident)
    requires
        event.data == Ok::<PagerdutyIncident, ParseError>(incident),
    ensures
        event_alerts(event) matches Ok(alerts) && {
            let resolves = event.event_type@ == "incident.resolved"@;
            let acknowledges = event.event_type@ == "incident.acknowledged"@;
            let fires = event.event_type@ == "incident.triggered"@ || event.event_type@
                == "incident.reopened"@ || event.event_type@ == "incident.unacknowledged"@;
            &&& alerts.len() > 0 <==> resolves || acknowledges || fires
            &&& resolves ==> alerts[0].status == AlertStatus::Resolved
            &&& acknowledges ==> alerts[0].status == AlertStatus::Acknowledged
            &&& fires ==> alerts[0].status == AlertStatus::Firing
        },
{
    lemma_event_types_differ();
}

proof fn lemma_event_types_differ()
    ensures
        "incident.resolved"@ != "incident.acknowledged"@,
        "incident.resolved"@ != "incident.triggered"@,
        "incident.resolved"@ != "incident.reopened"@,
        "incident.resolved"@ != "incident.unacknowledged"@,
        "incident.acknowledged"@ != "incident.triggered"@,
        "incident.acknowledged"@ != "incident.reopened"@,
        "incident.acknowledged"@ != "incident.unacknowledged"@,
{
    reveal_strlit("incident.resolved");
    reveal_strlit("incident.acknowledged");
    reveal_strlit("incident.triggered");
    reveal_strlit("incident.reopened");
    reveal_strlit("incident.unacknowledged");
    assert("incident.resolved"@[9] == 'r');
    assert("incident.acknowledged"@[9] == 'a');
    assert("incident.triggered"@[9] == 't');
    assert("incident.reopened"@[11] == 'o');
    assert("incident.resolved"@[11] == 's');
    assert("incident.reopened"@[9] == 'r');
    assert("incident.unacknowledged"@[9] == 'u');
}

/// An event of a type that says nothing of an alert stands for none, even where it is about no
/// incident; one of the other types that is about none is an error, and the error is handed on.
pub proof fn law_event_without_an_incident(event: PagerdutyEvent, error: ParseError)
    requires
        event.data == Err::<PagerdutyIncident, ParseError>(error),
    ensures
        event_alerts(event) == if event.event_type@ == "incident.resolved"@ || event.event_type@
            == "incident.acknowledged"@ || event.event_type@ == "incident.triggered"@
            || event.event_type@ == "incident.reopened"@ || event.event_type@
            == "incident.unacknowledged"@ {
            Err(error.message@)
        } else {
            Ok(Seq::<AlertView>::empty())
        },
{
}

/// The event that resolves an incident reaches the incident that an earlier event about it led to,
/// as long as that one is open: no other incident is touched and none is opened.
pub proof fn law_resolve_reaches_what_the_trigger_opened(
    store: StoreView,
    earlier: PagerdutyEvent,
    resolve: PagerdutyEvent,
    first: Timestamp,
    second: Timestamp,
    fresh: IncidentId,
    id: IncidentId,
    unused: IncidentId,
)
    requires
        store.consistent(),
        !store.incidents.contains_key(fresh),
        earlier.data matches Ok(incident) && resolve.data matches Ok(other) && incident.id@
            == other.id@,
        event_alerts(earlier) matches Ok(alerts) && alerts.len() > 0 && alerts[0].status
            != AlertStatus::Resolved,
        resolve.event_type@ == "incident.resolved"@,
    ensures
        event_alerts(earlier) matches Ok(ours) && event_alerts(resolve) matches Ok(theirs) && {
            let (between, landed) = decided(store, ours[0], first, fresh);
            let (after, decision) = decided(between, theirs[0], second, unused);
            &&& landed is Opened || landed is Attached || landed is Updated
            &&& landed == (Decision::Opened { incident: id }) || landed == (Decision::Attached {
                incident: id,
            }) || landed == (Decision::Updated { incident: id }) ==> {
                &&& decision == Decision::Closed { incident: id } || decision
                    == Decision::Updated { incident: id }
                &&& after.incidents.dom() == between.incidents.dom()
                &&& exists|i: int|
                    0 <= i < after.incidents[id].alerts.len() && (
                    #[trigger] after.incidents[id].alerts[i]).source_alert_id
                        == ours[0].source_alert_id && after.incidents[id].alerts[i].status
                        == AlertStatus::Resolved
            }
        },
{
    lemma_event_types_differ();
    law_events_of_one_incident_are_one_alert(earlier, resolve);
    let ours = event_alerts(earlier)->Ok_0[0];
    let theirs = event_alerts(resolve)->Ok_0[0];
    law_decision_names_the_incident(store, ours, first, fresh);
    law_decide_keeps_consistency(store, ours, first, fresh);
    let (between, landed) = decided(store, ours, first, fresh);
    law_closed_only_with_every_alert_resolved(store, ours, first, fresh);
    if landed == (Decision::Opened { incident: id }) || landed == (Decision::Attached {
        incident: id,
    }) || landed == (Decision::Updated { incident: id }) {
        let alerts = between.incidents[id].alerts;
        let i = choose|i: int|
            0 <= i < alerts.len() && (#[trigger] alerts[i]).identity() == ours.identity();
        assert(between.incidents[id].alerts[i].source == theirs.source);
        law_event_sets_the_status_of_its_alert(between, id, i, theirs, second, unused);
        let after = decided(between, theirs, second, unused).0;
        assert(after.incidents[id].alerts[i].status == AlertStatus::Resolved);
    }
}

/// What two deliveries about the same incident are parsed to are alerts of the same source and id,
/// whatever the types of their events.
pub proof fn law_deliveries_of_one_incident_are_one_alert(
    adapter: Pagerduty,
    first: PagerdutyEvent,
    second: PagerdutyEvent,
    ours: Vec<Alert>,
    theirs: Vec<Alert>,
)
    requires
        first.data matches Ok(incident) && second.data matches Ok(other) && incident.id@
            == other.id@,
        call_ensures(
            Pagerduty::parse,
            (&adapter, Ok::<PagerdutyEvent, ParseError>(first)),
            Ok::<Vec<Alert>, ParseError>(ours),
        ),
        call_ensures(
            Pagerduty::parse,
            (&adapter, Ok::<PagerdutyEvent, ParseError>(second)),
            Ok::<Vec<Alert>, ParseError>(theirs),
        ),
        ours@.len() > 0,
        theirs@.len() > 0,
    ensures
        ours@[0].source@ == "pagerduty"@,
        theirs@[0].source@ == "pagerduty"@,
        ours@[0].source_alert_id@ == theirs@[0].source_alert_id@,
        first.data matches Ok(incident) && ours@[0].source_alert_id@ == incident.id@,
{
    assert(crate::incident::alert_views(ours@)[0] == ours@[0]@);
    assert(crate::incident::alert_views(theirs@)[0] == theirs@[0]@);
    law_event_stands_for_its_incident(first, Seq::empty());
    law_event_stands_for_its_incident(second, Seq::empty());
}

} // verus!
