//! Which incident an alert belongs to.
use super::store::{IncidentStore, StoreView};
use super::{alert_views, key_of, opened, CloseReason, DedupeKey, Incident, IncidentId};
use crate::alert::{Alert, AlertStatus, AlertView};
use crate::time::Timestamp;
use vstd::prelude::*;

verus! {

/// What became of an alert.
#[derive(Clone, Copy, PartialEq, Eq, Structural, Debug)]
#[must_use]
pub enum Decision {
    Opened { incident: IncidentId },
    Attached { incident: IncidentId },
    Updated { incident: IncidentId },
    Closed { incident: IncidentId },
    DroppedResolve,
}

/// Every one of the alerts is resolved.
pub open spec fn all_resolved(alerts: Seq<AlertView>) -> bool {
    forall|i: int|
        0 <= i < alerts.len() ==> (#[trigger] alerts[i]).status == AlertStatus::Resolved
}

/// What an alert does to a store, and what is decided of it. `fresh` is the id that an incident
/// gets if the alert opens one.
///
/// An alert that an open incident holds updates it there, and closes the incident if that resolves
/// its last alert. A resolve of any other alert is dropped. Any other alert joins the open incident
/// with the same key, or opens one of its own.
pub open spec fn decided(
    store: StoreView,
    alert: AlertView,
    now: Timestamp,
    fresh: IncidentId,
) -> (StoreView, Decision) {
    if store.by_alert.contains_key(alert.identity()) {
        let incident = store.by_alert[alert.identity()];
        let updated = store.with_status(incident, alert.identity(), alert.status, now);
        if alert.status == AlertStatus::Resolved && updated.incidents.contains_key(incident)
            && all_resolved(updated.incidents[incident].alerts) {
            (
                updated.closed(incident, CloseReason::Resolved, now),
                Decision::Closed { incident },
            )
        } else {
            (updated, Decision::Updated { incident })
        }
    } else if alert.status == AlertStatus::Resolved {
        (store, Decision::DroppedResolve)
    } else if store.by_key.contains_key(key_of(alert)) {
        let incident = store.by_key[key_of(alert)];
        (store.attached(incident, alert, now), Decision::Attached { incident })
    } else {
        (
            store.inserted(opened(fresh, key_of(alert), alert, now)),
            Decision::Opened { incident: fresh },
        )
    }
}

/// Whether every alert of the incident is resolved.
fn has_only_resolved(incident: &Incident) -> (all: bool)
    ensures
        all == all_resolved(incident@.alerts),
{
    let mut i: usize = 0;
    while i < incident.alerts.len()
        invariant
            i <= incident.alerts.len(),
            forall|j: int|
                0 <= j < i ==> (#[trigger] alert_views(incident.alerts@)[j]).status
                    == AlertStatus::Resolved,
        decreases incident.alerts.len() - i,
    {
        assert(alert_views(incident.alerts@)[i as int] == incident.alerts[i as int]@);
        if incident.alerts[i].status != AlertStatus::Resolved {
            return false;
        }
        i = i + 1;
    }
    true
}

/// Folds `alert` into the store. An incident that it opens gets the id `fresh`.
pub fn decide_with_id<S: IncidentStore>(
    store: &mut S,
    alert: Alert,
    now: Timestamp,
    fresh: IncidentId,
) -> (decision: Decision)
    requires
        old(store).wf(),
    ensures
        final(store).wf(),
        (final(store).model(), decision) == decided(old(store).model(), alert@, now, fresh),
{
    if let Some(incident) = store.find_open_by_alert(
        alert.source,
        alert.source_alert_id.as_str(),
    ) {
        store.set_alert_status(
            incident,
            alert.source,
            alert.source_alert_id.as_str(),
            alert.status,
            now,
        );
        let all_resolved: bool = alert.status == AlertStatus::Resolved && match store.get(
            incident,
        ) {
            Some(held) => has_only_resolved(held),
            None => false,
        };
        if all_resolved {
            store.close(incident, CloseReason::Resolved, now);
            return Decision::Closed { incident };
        }
        return Decision::Updated { incident };
    }
    if alert.status == AlertStatus::Resolved {
        return Decision::DroppedResolve;
    }
    let key: DedupeKey = DedupeKey::of(&alert);
    if let Some(incident) = store.find_open_by_key(&key) {
        store.attach_alert(incident, alert, now);
        return Decision::Attached { incident };
    }
    store.insert(Incident::open(fresh, key, alert, now));
    Decision::Opened { incident: fresh }
}

/// Folds `alert` into the store. An incident that it opens gets a fresh id.
pub fn decide<S: IncidentStore>(store: &mut S, alert: Alert, now: Timestamp) -> (decision: Decision)
    requires
        old(store).wf(),
    ensures
        final(store).wf(),
        exists|fresh: IncidentId|
            super::is_version_7(fresh.0) && (final(store).model(), decision) == #[trigger] decided(
                old(store).model(),
                alert@,
                now,
                fresh,
            ),
{
    decide_with_id(store, alert, now, IncidentId::new())
}

} // verus!
