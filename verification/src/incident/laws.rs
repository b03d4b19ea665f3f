//! What holds of the store whatever alerts come in.
use super::dedupe::{all_resolved, decided, Decision};
use super::store::{holds_alert, identities, is_first, StoreView};
use super::{key_of, opened, CloseReason, IncidentId, IncidentState, IncidentView, KeyView};
use crate::alert::{AlertStatus, AlertView};
use crate::time::Timestamp;
use crate::triage::TriageView;
use vstd::prelude::*;

verus! {

impl IncidentView {
    /// Still open.
    pub open spec fn is_open(self) -> bool {
        self.state == IncidentState::Open
    }

    /// Its alerts differ in identity and have the incident's key.
    pub open spec fn alerts_belong(self) -> bool {
        &&& forall|i: int|
            0 <= i < self.alerts.len() ==> key_of(#[trigger] self.alerts[i]) == self.key
        &&& forall|i: int, j: int|
            0 <= i < self.alerts.len() && 0 <= j < self.alerts.len() && i != j ==> (
            #[trigger] self.alerts[i]).identity() != (#[trigger] self.alerts[j]).identity()
    }
}

impl StoreView {
    /// The incident is in the store and open.
    pub open spec fn has_open(self, id: IncidentId) -> bool {
        self.incidents.contains_key(id) && self.incidents[id].is_open()
    }

    /// Incidents stand under their own ids, their alerts belong to them, and the two indexes find
    /// exactly the alerts and the keys of the open incidents.
    pub open spec fn indexed(self) -> bool {
        &&& forall|id: IncidentId| #[trigger]
            self.incidents.contains_key(id) ==> self.incidents[id].id == id
                && self.incidents[id].alerts_belong()
        &&& forall|who: (Seq<char>, Seq<char>)| #[trigger]
            self.by_alert.contains_key(who) ==> self.has_open(self.by_alert[who]) && holds_alert(
                self.incidents[self.by_alert[who]].alerts,
                who,
            )
        &&& forall|id: IncidentId, i: int|
            self.has_open(id) && 0 <= i < self.incidents[id].alerts.len()
                ==> self.by_alert.contains_key((#[trigger] self.incidents[id].alerts[i]).identity())
                && self.by_alert[self.incidents[id].alerts[i].identity()] == id
        &&& forall|key: KeyView| #[trigger]
            self.by_key.contains_key(key) ==> self.has_open(self.by_key[key])
                && self.incidents[self.by_key[key]].key == key
        &&& forall|id: IncidentId| #[trigger]
            self.has_open(id) ==> self.by_key.contains_key(self.incidents[id].key)
                && self.by_key[self.incidents[id].key] == id
    }

    /// The store is consistent: its indexes are right, and an open incident has an alert that is
    /// not resolved.
    pub open spec fn consistent(self) -> bool {
        &&& self.indexed()
        &&& forall|id: IncidentId| #[trigger]
            self.has_open(id) ==> !all_resolved(self.incidents[id].alerts)
    }
}

/// An alert that an incident holds is the first, and only, one of its identity.
proof fn lemma_held_is_first(incident: IncidentView, who: (Seq<char>, Seq<char>), i: int)
    requires
        incident.alerts_belong(),
        0 <= i < incident.alerts.len(),
        incident.alerts[i].identity() == who,
    ensures
        forall|j: int| #[trigger] is_first(incident.alerts, who, j) <==> j == i,
{
}

/// Recording a status leaves the identities and keys of the alerts as they are.
proof fn lemma_with_status(
    incident: IncidentView,
    who: (Seq<char>, Seq<char>),
    status: AlertStatus,
    now: Timestamp,
    i: int,
)
    requires
        incident.alerts_belong(),
        0 <= i < incident.alerts.len(),
        incident.alerts[i].identity() == who,
    ensures
        ({
            let updated = incident.with_status(who, status, now);
            &&& updated.id == incident.id
            &&& updated.key == incident.key
            &&& updated.state == incident.state
            &&& updated.opened_at == incident.opened_at
            &&& updated.triage == incident.triage
            &&& updated.last_activity_at == now
            &&& updated.alerts == incident.alerts.update(
                i,
                AlertView { status, ..incident.alerts[i] },
            )
            &&& updated.alerts_belong()
        }),
{
    lemma_held_is_first(incident, who, i);
    assert(is_first(incident.alerts, who, i));
    let updated = incident.with_status(who, status, now);
    let alerts = incident.alerts.update(i, AlertView { status, ..incident.alerts[i] });
    assert(updated.alerts == alerts);
    assert forall|j: int| 0 <= j < alerts.len() implies key_of(#[trigger] alerts[j])
        == incident.key by {
        assert(key_of(incident.alerts[j]) == incident.key);
        assert(alerts[j].labels == incident.alerts[j].labels);
    }
    assert forall|a: int, b: int|
        0 <= a < alerts.len() && 0 <= b < alerts.len() && a != b implies (
    #[trigger] alerts[a]).identity() != (#[trigger] alerts[b]).identity() by {
        assert(alerts[a].identity() == incident.alerts[a].identity());
        assert(alerts[b].identity() == incident.alerts[b].identity());
    }
}

/// Closing an open incident keeps the indexes right.
proof fn lemma_close_keeps_indexes(
    store: StoreView,
    id: IncidentId,
    reason: CloseReason,
    now: Timestamp,
)
    requires
        store.indexed(),
        store.has_open(id),
    ensures
        store.closed(id, reason, now).indexed(),
        forall|other: IncidentId| #[trigger]
            store.closed(id, reason, now).has_open(other) <==> store.has_open(other) && other != id,
{
    let after = store.closed(id, reason, now);
    let incident = store.incidents[id];
    assert forall|other: IncidentId| #[trigger] after.incidents.contains_key(
        other,
    ) implies after.incidents[other].id == other && after.incidents[other].alerts_belong() by {
        assert(store.incidents.contains_key(other));
    }
    assert forall|who: (Seq<char>, Seq<char>)| #[trigger] after.by_alert.contains_key(
        who,
    ) implies after.has_open(after.by_alert[who]) && holds_alert(
        after.incidents[after.by_alert[who]].alerts,
        who,
    ) by {
        assert(store.by_alert.contains_key(who));
        assert(!identities(incident.alerts).contains(who));
        assert(store.by_alert[who] != id);
    }
    assert forall|other: IncidentId, i: int|
        after.has_open(other) && 0 <= i
            < after.incidents[other].alerts.len() implies after.by_alert.contains_key(
        (#[trigger] after.incidents[other].alerts[i]).identity(),
    ) && after.by_alert[after.incidents[other].alerts[i].identity()] == other by {
        assert(store.has_open(other));
        let who = store.incidents[other].alerts[i].identity();
        assert(store.by_alert[who] == other);
        if holds_alert(incident.alerts, who) {
            let j = choose|j: int|
                0 <= j < incident.alerts.len() && (#[trigger] incident.alerts[j]).identity() == who;
            assert(store.by_alert[store.incidents[id].alerts[j].identity()] == id);
        }
    }
    assert forall|key: KeyView| #[trigger] after.by_key.contains_key(key) implies after.has_open(
        after.by_key[key],
    ) && after.incidents[after.by_key[key]].key == key by {
        assert(store.by_key.contains_key(key));
        assert(store.by_key[key] != id);
    }
    assert forall|other: IncidentId| #[trigger] after.has_open(
        other,
    ) implies after.by_key.contains_key(after.incidents[other].key)
        && after.by_key[after.incidents[other].key] == other by {
        assert(store.has_open(other));
        assert(store.by_key[store.incidents[id].key] == id);
    }
}

/// Recording the status of an alert that an open incident holds keeps the indexes right, and
/// touches that incident alone.
proof fn lemma_status_keeps_indexes(
    store: StoreView,
    who: (Seq<char>, Seq<char>),
    status: AlertStatus,
    now: Timestamp,
) -> (i: int)
    requires
        store.indexed(),
        store.by_alert.contains_key(who),
    ensures
        ({
            let id = store.by_alert[who];
            let before = store.incidents[id];
            let after = store.with_status(id, who, status, now);
            &&& after.indexed()
            &&& 0 <= i < before.alerts.len()
            &&& before.alerts[i].identity() == who
            &&& after.incidents.contains_key(id)
            &&& after.incidents[id].state == before.state
            &&& after.incidents[id].key == before.key
            &&& after.incidents[id].opened_at == before.opened_at
            &&& after.incidents[id].alerts == before.alerts.update(
                i,
                AlertView { status, ..before.alerts[i] },
            )
            &&& forall|other: IncidentId| #[trigger]
                after.has_open(other) <==> store.has_open(other)
            &&& forall|other: IncidentId|
                other != id ==> after.incidents.contains_key(other)
                    == store.incidents.contains_key(other) && #[trigger] after.incidents[other]
                    == store.incidents[other]
        }),
{
    let id = store.by_alert[who];
    let before = store.incidents[id];
    let i = choose|i: int|
        0 <= i < before.alerts.len() && (#[trigger] before.alerts[i]).identity() == who;
    lemma_with_status(before, who, status, now, i);
    let after = store.with_status(id, who, status, now);
    assert(after.incidents[id] == before.with_status(who, status, now));
    assert(after.by_alert == store.by_alert);
    assert(after.by_key == store.by_key);
    assert forall|other: IncidentId| #[trigger] after.has_open(other) == store.has_open(other) by {}
    assert forall|other: IncidentId| #[trigger] after.incidents.contains_key(
        other,
    ) implies after.incidents[other].id == other && after.incidents[other].alerts_belong() by {
        assert(store.incidents.contains_key(other));
    }
    assert forall|other: IncidentId, j: int|
        after.has_open(other) && 0 <= j
            < after.incidents[other].alerts.len() implies after.by_alert.contains_key(
        (#[trigger] after.incidents[other].alerts[j]).identity(),
    ) && after.by_alert[after.incidents[other].alerts[j].identity()] == other by {
        assert(store.has_open(other));
        assert(store.incidents[other].alerts[j].identity()
            == after.incidents[other].alerts[j].identity());
    }
    assert forall|held: (Seq<char>, Seq<char>)| #[trigger] after.by_alert.contains_key(
        held,
    ) implies after.has_open(after.by_alert[held]) && holds_alert(
        after.incidents[after.by_alert[held]].alerts,
        held,
    ) by {
        assert(store.by_alert.contains_key(held));
        let other = store.by_alert[held];
        let j = choose|j: int|
            0 <= j < store.incidents[other].alerts.len() && (
            #[trigger] store.incidents[other].alerts[j]).identity() == held;
        assert(after.incidents[other].alerts[j].identity() == held);
    }
    i
}

/// Attaching an alert that no open incident holds to the open incident with its key keeps the
/// indexes right.
proof fn lemma_attach_keeps_indexes(store: StoreView, alert: AlertView, now: Timestamp)
    requires
        store.indexed(),
        !store.by_alert.contains_key(alert.identity()),
        store.by_key.contains_key(key_of(alert)),
    ensures
        store.attached(store.by_key[key_of(alert)], alert, now).indexed(),
{
    let id = store.by_key[key_of(alert)];
    assert(store.has_open(id));
    let before = store.incidents[id];
    let after = store.attached(id, alert, now);
    let incident = after.incidents[id];
    assert(incident == before.with_alert(alert, now));
    assert(incident.alerts_belong()) by {
        assert forall|a: int, b: int|
            0 <= a < incident.alerts.len() && 0 <= b < incident.alerts.len() && a != b implies (
        #[trigger] incident.alerts[a]).identity() != (#[trigger] incident.alerts[b]).identity() by {
            if a < before.alerts.len() {
                assert(store.by_alert.contains_key(store.incidents[id].alerts[a].identity()));
            }
            if b < before.alerts.len() {
                assert(store.by_alert.contains_key(store.incidents[id].alerts[b].identity()));
            }
        }
    }
    assert forall|other: IncidentId| #[trigger] after.has_open(other) == store.has_open(other) by {}
    assert forall|other: IncidentId| #[trigger] after.incidents.contains_key(
        other,
    ) implies after.incidents[other].id == other && after.incidents[other].alerts_belong() by {
        assert(store.incidents.contains_key(other));
    }
    assert forall|held: (Seq<char>, Seq<char>)| #[trigger] after.by_alert.contains_key(
        held,
    ) implies after.has_open(after.by_alert[held]) && holds_alert(
        after.incidents[after.by_alert[held]].alerts,
        held,
    ) by {
        if held == alert.identity() {
            assert(incident.alerts[before.alerts.len() as int].identity() == held);
        } else {
            assert(store.by_alert.contains_key(held));
            let other = store.by_alert[held];
            let j = choose|j: int|
                0 <= j < store.incidents[other].alerts.len() && (
                #[trigger] store.incidents[other].alerts[j]).identity() == held;
            assert(after.incidents[other].alerts[j].identity() == held);
        }
    }
    assert forall|other: IncidentId, j: int|
        after.has_open(other) && 0 <= j
            < after.incidents[other].alerts.len() implies after.by_alert.contains_key(
        (#[trigger] after.incidents[other].alerts[j]).identity(),
    ) && after.by_alert[after.incidents[other].alerts[j].identity()] == other by {
        assert(store.has_open(other));
        if j < store.incidents[other].alerts.len() {
            assert(store.by_alert.contains_key(store.incidents[other].alerts[j].identity()));
            assert(after.incidents[other].alerts[j] == store.incidents[other].alerts[j]);
        }
    }
}

/// Opening an incident with a fresh id for an alert that no open incident holds, and whose key no
/// open incident has, keeps the indexes right.
proof fn lemma_open_keeps_indexes(
    store: StoreView,
    alert: AlertView,
    now: Timestamp,
    fresh: IncidentId,
)
    requires
        store.indexed(),
        !store.incidents.contains_key(fresh),
        !store.by_alert.contains_key(alert.identity()),
        !store.by_key.contains_key(key_of(alert)),
    ensures
        store.inserted(opened(fresh, key_of(alert), alert, now)).indexed(),
{
    let incident = opened(fresh, key_of(alert), alert, now);
    let after = store.inserted(incident);
    assert(incident.alerts[0] == alert);
    assert(holds_alert(incident.alerts, alert.identity()));
    assert forall|who: (Seq<char>, Seq<char>)| holds_alert(incident.alerts, who) implies who
        == alert.identity() by {}
    assert forall|other: IncidentId| #[trigger] after.has_open(other) == (store.has_open(other)
        || other == fresh) by {}
    assert forall|other: IncidentId| #[trigger] after.incidents.contains_key(
        other,
    ) implies after.incidents[other].id == other && after.incidents[other].alerts_belong() by {
        if other != fresh {
            assert(store.incidents.contains_key(other));
        }
    }
    assert forall|held: (Seq<char>, Seq<char>)| #[trigger] after.by_alert.contains_key(
        held,
    ) implies after.has_open(after.by_alert[held]) && holds_alert(
        after.incidents[after.by_alert[held]].alerts,
        held,
    ) by {
        if held != alert.identity() {
            assert(store.by_alert.contains_key(held));
            assert(store.has_open(store.by_alert[held]));
        }
    }
    assert forall|other: IncidentId, j: int|
        after.has_open(other) && 0 <= j
            < after.incidents[other].alerts.len() implies after.by_alert.contains_key(
        (#[trigger] after.incidents[other].alerts[j]).identity(),
    ) && after.by_alert[after.incidents[other].alerts[j].identity()] == other by {
        if other != fresh {
            assert(store.has_open(other));
            assert(store.by_alert.contains_key(store.incidents[other].alerts[j].identity()));
        }
    }
    assert forall|key: KeyView| #[trigger] after.by_key.contains_key(key) implies after.has_open(
        after.by_key[key],
    ) && after.incidents[after.by_key[key]].key == key by {
        if key != key_of(alert) {
            assert(store.by_key.contains_key(key));
            assert(store.has_open(store.by_key[key]));
        }
    }
    assert forall|other: IncidentId| #[trigger] after.has_open(
        other,
    ) implies after.by_key.contains_key(after.incidents[other].key)
        && after.by_key[after.incidents[other].key] == other by {
        if other != fresh {
            assert(store.has_open(other));
        }
    }
}

/// A store without incidents is consistent.
pub proof fn law_empty_store_is_consistent()
    ensures
        StoreView::empty().consistent(),
{
}

/// Whatever alert comes in, a consistent store stays consistent.
pub proof fn law_decide_keeps_consistency(
    store: StoreView,
    alert: AlertView,
    now: Timestamp,
    fresh: IncidentId,
)
    requires
        store.consistent(),
        !store.incidents.contains_key(fresh),
    ensures
        decided(store, alert, now, fresh).0.consistent(),
{
    let who = alert.identity();
    let after = decided(store, alert, now, fresh).0;
    if store.by_alert.contains_key(who) {
        let id = store.by_alert[who];
        let updated = store.with_status(id, who, alert.status, now);
        let i = lemma_status_keeps_indexes(store, who, alert.status, now);
        if alert.status == AlertStatus::Resolved && all_resolved(updated.incidents[id].alerts) {
            lemma_close_keeps_indexes(updated, id, CloseReason::Resolved, now);
        } else if alert.status != AlertStatus::Resolved {
            assert(updated.incidents[id].alerts[i].status == alert.status);
        }
    } else if alert.status == AlertStatus::Resolved {
    } else if store.by_key.contains_key(key_of(alert)) {
        lemma_attach_keeps_indexes(store, alert, now);
        let id = store.by_key[key_of(alert)];
        assert(store.has_open(id));
        assert(after.incidents[id].alerts[store.incidents[id].alerts.len() as int] == alert);
        assert forall|other: IncidentId| #[trigger] after.has_open(other) implies !all_resolved(
            after.incidents[other].alerts,
        ) by {
            assert(store.has_open(other));
        }
    } else {
        lemma_open_keeps_indexes(store, alert, now, fresh);
        assert(after.incidents[fresh].alerts[0] == alert);
        assert forall|other: IncidentId| #[trigger] after.has_open(other) implies !all_resolved(
            after.incidents[other].alerts,
        ) by {
            if other != fresh {
                assert(store.has_open(other));
            }
        }
    }
}

/// Closing an open incident keeps a store consistent.
pub proof fn law_close_keeps_consistency(
    store: StoreView,
    id: IncidentId,
    reason: CloseReason,
    now: Timestamp,
)
    requires
        store.consistent(),
        store.has_open(id),
    ensures
        store.closed(id, reason, now).consistent(),
{
    lemma_close_keeps_indexes(store, id, reason, now);
}

/// Closing the idle incidents keeps a store consistent, and leaves none that is idle.
pub proof fn law_expiry_keeps_consistency(store: StoreView, cutoff: Timestamp, now: Timestamp)
    requires
        store.consistent(),
    ensures
        store.expired(store.idle(cutoff), now).consistent(),
        store.expired(store.idle(cutoff), now).idle(cutoff) == Set::<IncidentId>::empty(),
{
    let ids = store.idle(cutoff);
    let after = store.expired(ids, now);
    assert forall|id: IncidentId| #[trigger] after.has_open(id) == (store.has_open(id)
        && !ids.contains(id)) by {}
    assert forall|id: IncidentId| #[trigger] after.incidents.contains_key(
        id,
    ) implies after.incidents[id].id == id && after.incidents[id].alerts_belong() by {
        assert(store.incidents.contains_key(id));
    }
    assert forall|who: (Seq<char>, Seq<char>)| #[trigger] after.by_alert.contains_key(
        who,
    ) implies after.has_open(after.by_alert[who]) && holds_alert(
        after.incidents[after.by_alert[who]].alerts,
        who,
    ) by {
        assert(store.by_alert.contains_key(who));
        let id = store.by_alert[who];
        assert(store.has_open(id));
    }
    assert forall|id: IncidentId, i: int|
        after.has_open(id) && 0 <= i
            < after.incidents[id].alerts.len() implies after.by_alert.contains_key(
        (#[trigger] after.incidents[id].alerts[i]).identity(),
    ) && after.by_alert[after.incidents[id].alerts[i].identity()] == id by {
        assert(store.has_open(id));
        let who = store.incidents[id].alerts[i].identity();
        assert(store.by_alert[who] == id);
        assert forall|other: IncidentId| #[trigger] ids.contains(other) implies !holds_alert(
            store.incidents[other].alerts,
            who,
        ) by {
            assert(store.has_open(other));
            if holds_alert(store.incidents[other].alerts, who) {
                let j = choose|j: int|
                    0 <= j < store.incidents[other].alerts.len() && (
                    #[trigger] store.incidents[other].alerts[j]).identity() == who;
                assert(store.by_alert[store.incidents[other].alerts[j].identity()] == other);
            }
        }
    }
    assert forall|key: KeyView| #[trigger] after.by_key.contains_key(key) implies after.has_open(
        after.by_key[key],
    ) && after.incidents[after.by_key[key]].key == key by {
        assert(store.by_key.contains_key(key));
        assert(store.has_open(store.by_key[key]));
    }
    assert forall|id: IncidentId| #[trigger] after.has_open(id) implies after.by_key.contains_key(
        after.incidents[id].key,
    ) && after.by_key[after.incidents[id].key] == id by {
        assert(store.has_open(id));
        assert forall|other: IncidentId| #[trigger]
            ids.contains(other) implies store.incidents[other].key != store.incidents[id].key by {
            assert(store.has_open(other));
        }
    }
    assert(after.idle(cutoff) =~= Set::<IncidentId>::empty());
}

/// Recording a triage result keeps a store consistent.
pub proof fn law_triage_keeps_consistency(store: StoreView, id: IncidentId, triage: TriageView)
    requires
        store.consistent(),
    ensures
        store.with_triage(id, triage).consistent(),
{
    let after = store.with_triage(id, triage);
    if store.incidents.contains_key(id) {
        assert forall|other: IncidentId| #[trigger] after.has_open(other) == store.has_open(
            other,
        ) by {}
        assert forall|other: IncidentId| #[trigger] after.incidents.contains_key(
            other,
        ) implies after.incidents[other].id == other && after.incidents[other].alerts_belong() by {
            assert(store.incidents.contains_key(other));
        }
        assert forall|other: IncidentId, j: int|
            after.has_open(other) && 0 <= j
                < after.incidents[other].alerts.len() implies after.by_alert.contains_key(
            (#[trigger] after.incidents[other].alerts[j]).identity(),
        ) && after.by_alert[after.incidents[other].alerts[j].identity()] == other by {
            assert(store.has_open(other));
            assert(store.by_alert.contains_key(store.incidents[other].alerts[j].identity()));
        }
        assert forall|other: IncidentId| #[trigger] after.has_open(other) implies !all_resolved(
            after.incidents[other].alerts,
        ) by {
            assert(store.has_open(other));
        }
    }
}

/// An incident that was put in is read back as it was, and is found by its key and by each of its
/// alerts.
pub proof fn law_inserted_incident_is_found(store: StoreView, incident: IncidentView, i: int)
    requires
        0 <= i < incident.alerts.len(),
    ensures
        store.inserted(incident).incidents.get(incident.id) == Some(incident),
        store.inserted(incident).by_key.get(incident.key) == Some(incident.id),
        store.inserted(incident).by_alert.get(incident.alerts[i].identity()) == Some(incident.id),
{
    assert(holds_alert(incident.alerts, incident.alerts[i].identity()));
}

/// An alert that was attached is the last of its incident, which is found by it, and the attachment
/// counts as activity.
pub proof fn law_attached_alert_is_found(
    store: StoreView,
    id: IncidentId,
    alert: AlertView,
    now: Timestamp,
)
    requires
        store.incidents.contains_key(id),
    ensures
        store.attached(id, alert, now).incidents[id].alerts == store.incidents[id].alerts.push(alert),
        store.attached(id, alert, now).incidents[id].last_activity_at == now,
        store.attached(id, alert, now).by_alert.get(alert.identity()) == Some(id),
{
}

/// An incident that was closed is found neither by its key nor by any of its alerts, but is still
/// read back, closed and otherwise as it was.
pub proof fn law_closed_incident_is_not_found(
    store: StoreView,
    id: IncidentId,
    reason: CloseReason,
    now: Timestamp,
    i: int,
)
    requires
        store.incidents.contains_key(id),
        0 <= i < store.incidents[id].alerts.len(),
    ensures
        ({
            let after = store.closed(id, reason, now);
            let incident = store.incidents[id];
            &&& after.by_key.get(incident.key) is None
            &&& after.by_alert.get(incident.alerts[i].identity()) is None
            &&& after.incidents.get(id) == Some(
                IncidentView {
                    state: IncidentState::Closed { reason, closed_at: now },
                    ..incident
                },
            )
        }),
{
    assert(holds_alert(
        store.incidents[id].alerts,
        store.incidents[id].alerts[i].identity(),
    ));
}

/// A mutation aimed at an incident that is not in the store changes nothing.
pub proof fn law_missing_incident_changes_nothing(
    store: StoreView,
    id: IncidentId,
    alert: AlertView,
    status: AlertStatus,
    triage: TriageView,
    reason: CloseReason,
    now: Timestamp,
)
    requires
        !store.incidents.contains_key(id),
    ensures
        store.attached(id, alert, now) == store,
        store.with_status(id, alert.identity(), status, now) == store,
        store.with_triage(id, triage) == store,
        store.closed(id, reason, now) == store,
{
}

/// The incident that an alert landed in, if it landed in one.
pub open spec fn landed_in(decision: Decision) -> Option<IncidentId> {
    match decision {
        Decision::Opened { incident } => Some(incident),
        Decision::Attached { incident } => Some(incident),
        Decision::Updated { incident } => Some(incident),
        Decision::Closed { incident } => Some(incident),
        Decision::DroppedResolve => None,
    }
}

/// The incident that a decision names is in the store afterwards, with the alert in it; it is
/// closed as resolved if the decision says so, and open otherwise.
pub proof fn law_decision_names_the_incident(
    store: StoreView,
    alert: AlertView,
    now: Timestamp,
    fresh: IncidentId,
)
    requires
        store.consistent(),
        !store.incidents.contains_key(fresh),
    ensures
        ({
            let (after, decision) = decided(store, alert, now, fresh);
            landed_in(decision) matches Some(id) ==> {
                &&& after.incidents.contains_key(id)
                &&& holds_alert(after.incidents[id].alerts, alert.identity())
                &&& after.incidents[id].last_activity_at == now
                &&& after.incidents[id].state == if decision is Closed {
                    IncidentState::Closed { reason: CloseReason::Resolved, closed_at: now }
                } else {
                    IncidentState::Open
                }
            }
        }),
{
    let (after, decision) = decided(store, alert, now, fresh);
    let who = alert.identity();
    if store.by_alert.contains_key(who) {
        let id = store.by_alert[who];
        assert(store.has_open(id));
        let i = lemma_status_keeps_indexes(store, who, alert.status, now);
        lemma_with_status(store.incidents[id], who, alert.status, now, i);
        assert(after.incidents[id].alerts[i].identity() == who);
    } else if alert.status == AlertStatus::Resolved {
    } else if store.by_key.contains_key(key_of(alert)) {
        let id = store.by_key[key_of(alert)];
        assert(store.has_open(id));
        let alerts = after.incidents[id].alerts;
        assert(alerts[alerts.len() - 1] == alert);
    } else {
        assert(after.incidents[fresh].alerts[0] == alert);
    }
}

/// No incident is ever removed, and none loses an alert: each keeps its id, its key and the time
/// it was opened, and its alerts stay in place.
pub proof fn law_incidents_stay(
    store: StoreView,
    alert: AlertView,
    now: Timestamp,
    fresh: IncidentId,
    id: IncidentId,
)
    requires
        store.consistent(),
        !store.incidents.contains_key(fresh),
        store.incidents.contains_key(id),
    ensures
        ({
            let after = decided(store, alert, now, fresh).0;
            &&& after.incidents.contains_key(id)
            &&& after.incidents[id].id == id
            &&& after.incidents[id].key == store.incidents[id].key
            &&& after.incidents[id].opened_at == store.incidents[id].opened_at
            &&& after.incidents[id].alerts.len() >= store.incidents[id].alerts.len()
            &&& forall|i: int|
                0 <= i < store.incidents[id].alerts.len() ==> (
                #[trigger] after.incidents[id].alerts[i]).identity()
                    == store.incidents[id].alerts[i].identity()
        }),
{
    let who = alert.identity();
    if store.by_alert.contains_key(who) {
        let i = lemma_status_keeps_indexes(store, who, alert.status, now);
        lemma_with_status(store.incidents[store.by_alert[who]], who, alert.status, now, i);
    } else if alert.status != AlertStatus::Resolved && store.by_key.contains_key(key_of(alert)) {
        assert(store.has_open(store.by_key[key_of(alert)]));
    }
}

/// Once an alert has landed in an incident that stays open, the same alert lands there again
/// without being added a second time: a refire updates in place.
pub proof fn law_same_alert_updates_in_place(
    store: StoreView,
    alert: AlertView,
    first: Timestamp,
    again: AlertView,
    second: Timestamp,
    fresh: IncidentId,
    unused: IncidentId,
)
    requires
        store.consistent(),
        !store.incidents.contains_key(fresh),
        again.identity() == alert.identity(),
        again.status != AlertStatus::Resolved,
        !(decided(store, alert, first, fresh).1 is Closed),
        !(decided(store, alert, first, fresh).1 is DroppedResolve),
    ensures
        ({
            let (once, landed) = decided(store, alert, first, fresh);
            let (twice, decision) = decided(once, again, second, unused);
            let id = landed_in(landed)->0;
            &&& decision == Decision::Updated { incident: id }
            &&& twice.incidents[id].alerts.len() == once.incidents[id].alerts.len()
            &&& twice.incidents.dom() == once.incidents.dom()
        }),
{
    let (once, landed) = decided(store, alert, first, fresh);
    let id = landed_in(landed)->0;
    let who = alert.identity();
    law_decide_keeps_consistency(store, alert, first, fresh);
    law_decision_names_the_incident(store, alert, first, fresh);
    let alerts = once.incidents[id].alerts;
    let held = choose|i: int| 0 <= i < alerts.len() && (#[trigger] alerts[i]).identity() == who;
    assert(once.has_open(id));
    assert(once.by_alert.contains_key(once.incidents[id].alerts[held].identity()));
    assert(once.by_alert[who] == id);
    let i = lemma_status_keeps_indexes(once, who, again.status, second);
    let twice = decided(once, again, second, unused).0;
    assert(twice.incidents.dom() =~= once.incidents.dom());
}

/// An alert that is new, fires, and has the source and the labels of an open incident joins that
/// incident, as its last alert.
pub proof fn law_same_labels_attach(
    store: StoreView,
    id: IncidentId,
    alert: AlertView,
    now: Timestamp,
    unused: IncidentId,
)
    requires
        store.consistent(),
        store.has_open(id),
        store.incidents[id].key == key_of(alert),
        !store.by_alert.contains_key(alert.identity()),
        alert.status != AlertStatus::Resolved,
    ensures
        decided(store, alert, now, unused).1 == (Decision::Attached { incident: id }),
        decided(store, alert, now, unused).0.incidents[id].alerts
            == store.incidents[id].alerts.push(alert),
{
}

/// An alert that is new, fires, and differs in its source or in any label from every open incident
/// opens an incident of its own, with that one alert.
pub proof fn law_any_label_difference_opens(
    store: StoreView,
    alert: AlertView,
    now: Timestamp,
    fresh: IncidentId,
)
    requires
        store.consistent(),
        !store.incidents.contains_key(fresh),
        !store.by_alert.contains_key(alert.identity()),
        alert.status != AlertStatus::Resolved,
        forall|id: IncidentId| #[trigger]
            store.has_open(id) ==> store.incidents[id].key != key_of(alert),
    ensures
        decided(store, alert, now, fresh).1 == (Decision::Opened { incident: fresh }),
        decided(store, alert, now, fresh).0.incidents[fresh] == opened(
            fresh,
            key_of(alert),
            alert,
            now,
        ),
{
}

/// The resolve of an alert that an open incident holds closes the incident exactly when every
/// other alert of it is resolved already; otherwise the incident stays open.
pub proof fn law_last_resolve_closes(
    store: StoreView,
    id: IncidentId,
    at: int,
    alert: AlertView,
    now: Timestamp,
    unused: IncidentId,
)
    requires
        store.consistent(),
        store.has_open(id),
        0 <= at < store.incidents[id].alerts.len(),
        store.incidents[id].alerts[at].identity() == alert.identity(),
        alert.status == AlertStatus::Resolved,
    ensures
        ({
            let decision = decided(store, alert, now, unused).1;
            let alerts = store.incidents[id].alerts;
            let others_resolved = forall|i: int|
                0 <= i < alerts.len() && i != at ==> (#[trigger] alerts[i]).status
                    == AlertStatus::Resolved;
            &&& others_resolved ==> decision == Decision::Closed { incident: id }
            &&& !others_resolved ==> decision == Decision::Updated { incident: id }
        }),
{
    let who = alert.identity();
    let alerts = store.incidents[id].alerts;
    assert(store.by_alert.contains_key(store.incidents[id].alerts[at].identity()));
    let i = lemma_status_keeps_indexes(store, who, alert.status, now);
    lemma_held_is_first(store.incidents[id], who, at);
    assert(is_first(alerts, who, i)) by {
        lemma_held_is_first(store.incidents[id], who, i);
    }
    let updated = store.with_status(id, who, alert.status, now).incidents[id].alerts;
    if forall|j: int|
        0 <= j < alerts.len() && j != at ==> (#[trigger] alerts[j]).status == AlertStatus::Resolved {
        assert(all_resolved(updated));
    } else {
        let j = choose|j: int|
            0 <= j < alerts.len() && j != at && (#[trigger] alerts[j]).status
                != AlertStatus::Resolved;
        assert(updated[j].status != AlertStatus::Resolved);
    }
}

/// A resolve of an alert that no open incident holds is dropped and leaves the store as it was,
/// even where an open incident has its labels.
pub proof fn law_orphan_resolve_changes_nothing(
    store: StoreView,
    alert: AlertView,
    now: Timestamp,
    unused: IncidentId,
)
    requires
        alert.status == AlertStatus::Resolved,
        !store.by_alert.contains_key(alert.identity()),
    ensures
        decided(store, alert, now, unused) == (store, Decision::DroppedResolve),
{
}

/// When an alert fires again after its incident was closed, with the labels it had there, it opens
/// a new incident; the closed one stays as it was.
pub proof fn law_refire_after_close_opens_anew(
    store: StoreView,
    id: IncidentId,
    reason: CloseReason,
    closed_at: Timestamp,
    alert: AlertView,
    now: Timestamp,
    fresh: IncidentId,
)
    requires
        store.consistent(),
        store.has_open(id),
        !store.incidents.contains_key(fresh),
        holds_alert(store.incidents[id].alerts, alert.identity()),
        key_of(alert) == store.incidents[id].key,
        alert.status != AlertStatus::Resolved,
    ensures
        ({
            let closed = store.closed(id, reason, closed_at);
            let (after, decision) = decided(closed, alert, now, fresh);
            &&& decision == Decision::Opened { incident: fresh }
            &&& fresh != id
            &&& after.incidents[id] == closed.incidents[id]
        }),
{
}

/// Idle incidents are closed before an alert is looked at, so an alert that fires again after its
/// incident went idle, with the labels it had there, opens a new one.
pub proof fn law_refire_after_idling_opens_anew(
    store: StoreView,
    id: IncidentId,
    cutoff: Timestamp,
    alert: AlertView,
    now: Timestamp,
    fresh: IncidentId,
)
    requires
        store.consistent(),
        store.has_open(id),
        store.incidents[id].idle_since(cutoff),
        !store.incidents.contains_key(fresh),
        holds_alert(store.incidents[id].alerts, alert.identity()),
        key_of(alert) == store.incidents[id].key,
        alert.status != AlertStatus::Resolved,
    ensures
        decided(store.expired(store.idle(cutoff), now), alert, now, fresh).1 == (Decision::Opened {
            incident: fresh,
        }),
        fresh != id,
{
    let ids = store.idle(cutoff);
    assert(ids.contains(id));
}

/// An acknowledged alert is treated as a firing one is.
pub proof fn law_acknowledged_is_treated_as_firing(
    store: StoreView,
    alert: AlertView,
    now: Timestamp,
    fresh: IncidentId,
)
    ensures
        decided(store, AlertView { status: AlertStatus::Acknowledged, ..alert }, now, fresh).1
            == decided(store, AlertView { status: AlertStatus::Firing, ..alert }, now, fresh).1,
{
    let acknowledged = AlertView { status: AlertStatus::Acknowledged, ..alert };
    let firing = AlertView { status: AlertStatus::Firing, ..alert };
    assert(acknowledged.identity() == firing.identity());
    assert(key_of(acknowledged) == key_of(firing));
}

/// Alerts that differ in source or in any label have different dedupe keys; all else about them
/// may differ without that.
pub proof fn law_key_is_source_and_labels(a: AlertView, b: AlertView)
    ensures
        key_of(a) == key_of(b) <==> a.source == b.source && a.labels == b.labels,
{
}

/// An event on an alert that an open incident holds is recorded there: that alert gets the status
/// of the event, whatever status it had, and nothing else about it changes; every other alert and
/// every other incident stays as it was; and the event counts as activity. The incident is closed
/// exactly if this leaves all its alerts resolved.
pub proof fn law_event_sets_the_status_of_its_alert(
    store: StoreView,
    id: IncidentId,
    at: int,
    alert: AlertView,
    now: Timestamp,
    unused: IncidentId,
)
    requires
        store.consistent(),
        store.incidents.contains_key(id),
        store.incidents[id].state == IncidentState::Open,
        0 <= at < store.incidents[id].alerts.len(),
        store.incidents[id].alerts[at].source == alert.source,
        store.incidents[id].alerts[at].source_alert_id == alert.source_alert_id,
    ensures
        ({
            let (after, decision) = decided(store, alert, now, unused);
            let before = store.incidents[id];
            let held = after.incidents[id];
            let all_are_resolved = forall|j: int|
                0 <= j < held.alerts.len() ==> (#[trigger] held.alerts[j]).status
                    == AlertStatus::Resolved;
            &&& after.incidents.dom() == store.incidents.dom()
            &&& held.alerts.len() == before.alerts.len()
            &&& held.alerts[at] == (AlertView { status: alert.status, ..before.alerts[at] })
            &&& forall|j: int|
                0 <= j < before.alerts.len() && j != at ==> #[trigger] held.alerts[j]
                    == before.alerts[j]
            &&& held.id == before.id
            &&& held.key == before.key
            &&& held.triage == before.triage
            &&& held.opened_at == before.opened_at
            &&& held.last_activity_at == now
            &&& forall|other: IncidentId|
                other != id && #[trigger] store.incidents.contains_key(other)
                    ==> after.incidents[other] == store.incidents[other]
            &&& all_are_resolved ==> decision == Decision::Closed { incident: id } && held.state
                == IncidentState::Closed { reason: CloseReason::Resolved, closed_at: now }
            &&& !all_are_resolved ==> decision == Decision::Updated { incident: id } && held.state
                == IncidentState::Open
        }),
{
    let who = alert.identity();
    let before = store.incidents[id];
    let (after, decision) = decided(store, alert, now, unused);
    assert(store.has_open(id));
    assert(store.by_alert.contains_key(store.incidents[id].alerts[at].identity()));
    let i = lemma_status_keeps_indexes(store, who, alert.status, now);
    lemma_with_status(before, who, alert.status, now, at);
    lemma_held_is_first(before, who, at);
    let updated = store.with_status(id, who, alert.status, now);
    assert(updated.incidents.dom() =~= store.incidents.dom());
    assert(after.incidents.dom() =~= store.incidents.dom());
    let held = after.incidents[id];
    assert(held.alerts == before.alerts.update(
        at,
        AlertView { status: alert.status, ..before.alerts[at] },
    ));
    assert(held.alerts[at].status == alert.status);
    if alert.status == AlertStatus::Resolved {
        assert(all_resolved(updated.incidents[id].alerts) <==> forall|j: int|
            0 <= j < held.alerts.len() ==> (#[trigger] held.alerts[j]).status
                == AlertStatus::Resolved);
    }
}

/// An incident is closed by a decision only where the latest event of each of its alerts is a
/// resolve, the incoming one among them.
pub proof fn law_closed_only_with_every_alert_resolved(
    store: StoreView,
    alert: AlertView,
    now: Timestamp,
    fresh: IncidentId,
)
    requires
        store.consistent(),
    ensures
        decided(store, alert, now, fresh).1 matches Decision::Closed { incident } ==> {
            let held = decided(store, alert, now, fresh).0.incidents[incident].alerts;
            &&& alert.status == AlertStatus::Resolved
            &&& exists|i: int|
                0 <= i < held.len() && (#[trigger] held[i]).source == alert.source
                    && held[i].source_alert_id == alert.source_alert_id
            &&& forall|i: int|
                0 <= i < held.len() ==> (#[trigger] held[i]).status == AlertStatus::Resolved
        },
{
    let who = alert.identity();
    if store.by_alert.contains_key(who) {
        let id = store.by_alert[who];
        let i = lemma_status_keeps_indexes(store, who, alert.status, now);
        assert(store.has_open(id));
        law_event_sets_the_status_of_its_alert(store, id, i, alert, now, fresh);
        let held = decided(store, alert, now, fresh).0.incidents[id].alerts;
        assert(held[i].source == alert.source);
    }
}

/// An alert that fires again, or is acknowledged, keeps its incident open: a later resolve of any
/// other alert of that incident does not close it.
pub proof fn law_refired_alert_keeps_its_incident_open(
    store: StoreView,
    id: IncidentId,
    at: int,
    refire: AlertView,
    first: Timestamp,
    other: int,
    resolve: AlertView,
    second: Timestamp,
    unused: IncidentId,
)
    requires
        store.consistent(),
        store.incidents.contains_key(id),
        store.incidents[id].state == IncidentState::Open,
        0 <= at < store.incidents[id].alerts.len(),
        0 <= other < store.incidents[id].alerts.len(),
        at != other,
        store.incidents[id].alerts[at].source == refire.source,
        store.incidents[id].alerts[at].source_alert_id == refire.source_alert_id,
        refire.status != AlertStatus::Resolved,
        store.incidents[id].alerts[other].source == resolve.source,
        store.incidents[id].alerts[other].source_alert_id == resolve.source_alert_id,
        resolve.status == AlertStatus::Resolved,
        !store.incidents.contains_key(unused),
    ensures
        ({
            let refired = decided(store, refire, first, unused).0;
            let (after, decision) = decided(refired, resolve, second, unused);
            &&& decision == Decision::Updated { incident: id }
            &&& after.incidents[id].state == IncidentState::Open
            &&& after.incidents[id].alerts[at].status == refire.status
        }),
{
    law_event_sets_the_status_of_its_alert(store, id, at, refire, first, unused);
    law_decide_keeps_consistency(store, refire, first, unused);
    let refired = decided(store, refire, first, unused).0;
    assert(refired.incidents[id].alerts[at].status != AlertStatus::Resolved);
    assert(refired.incidents[id].alerts[other] == store.incidents[id].alerts[other]);
    law_event_sets_the_status_of_its_alert(refired, id, other, resolve, second, unused);
    let after = decided(refired, resolve, second, unused).0;
    assert(after.incidents[id].alerts[at] == refired.incidents[id].alerts[at]);
}

/// An alert that no open incident holds and that does not come in resolved joins the open incident
/// of its source and labels as its last alert. That counts as activity; nothing else changes.
pub proof fn law_new_alert_joins_the_incident_of_its_labels(
    store: StoreView,
    id: IncidentId,
    alert: AlertView,
    now: Timestamp,
    unused: IncidentId,
)
    requires
        store.consistent(),
        store.incidents.contains_key(id),
        store.incidents[id].state == IncidentState::Open,
        store.incidents[id].key.source == alert.source,
        store.incidents[id].key.labels == alert.labels,
        alert.status != AlertStatus::Resolved,
        forall|other: IncidentId, i: int|
            store.incidents.contains_key(other) && store.incidents[other].state
                == IncidentState::Open && 0 <= i < store.incidents[other].alerts.len() ==> !((
            #[trigger] store.incidents[other].alerts[i]).source == alert.source
                && store.incidents[other].alerts[i].source_alert_id == alert.source_alert_id),
    ensures
        ({
            let (after, decision) = decided(store, alert, now, unused);
            &&& decision == Decision::Attached { incident: id }
            &&& after.incidents[id] == (IncidentView {
                alerts: store.incidents[id].alerts.push(alert),
                last_activity_at: now,
                ..store.incidents[id]
            })
            &&& after.incidents.dom() == store.incidents.dom()
            &&& forall|other: IncidentId|
                other != id && #[trigger] store.incidents.contains_key(other)
                    ==> after.incidents[other] == store.incidents[other]
        }),
{
    let who = alert.identity();
    if store.by_alert.contains_key(who) {
        let holder = store.by_alert[who];
        assert(store.has_open(holder));
        let alerts = store.incidents[holder].alerts;
        let i = choose|i: int| 0 <= i < alerts.len() && (#[trigger] alerts[i]).identity() == who;
        assert(store.incidents[holder].alerts[i].source == alert.source);
    }
    assert(store.has_open(id));
    assert(store.incidents[id].key == key_of(alert));
    let after = decided(store, alert, now, unused).0;
    assert(after.incidents.dom() =~= store.incidents.dom());
}

/// An alert that no open incident holds, does not come in resolved, and differs from every open
/// incident in source or labels opens an incident: open, with that alert alone, its source and
/// labels as the key, no triage, and both times set to now. No other incident changes.
pub proof fn law_new_alert_opens_an_incident(
    store: StoreView,
    alert: AlertView,
    now: Timestamp,
    fresh: IncidentId,
)
    requires
        store.consistent(),
        !store.incidents.contains_key(fresh),
        alert.status != AlertStatus::Resolved,
        forall|other: IncidentId, i: int|
            store.incidents.contains_key(other) && store.incidents[other].state
                == IncidentState::Open && 0 <= i < store.incidents[other].alerts.len() ==> !((
            #[trigger] store.incidents[other].alerts[i]).source == alert.source
                && store.incidents[other].alerts[i].source_alert_id == alert.source_alert_id),
        forall|other: IncidentId| #[trigger]
            store.incidents.contains_key(other) && store.incidents[other].state
                == IncidentState::Open ==> !(store.incidents[other].key.source == alert.source
                && store.incidents[other].key.labels == alert.labels),
    ensures
        ({
            let (after, decision) = decided(store, alert, now, fresh);
            let incident = after.incidents[fresh];
            &&& decision == Decision::Opened { incident: fresh }
            &&& after.incidents.dom() == store.incidents.dom().insert(fresh)
            &&& incident.id == fresh
            &&& incident.state == IncidentState::Open
            &&& incident.key.source == alert.source
            &&& incident.key.labels == alert.labels
            &&& incident.alerts == seq![alert]
            &&& incident.triage is None
            &&& incident.opened_at == now
            &&& incident.last_activity_at == now
            &&& forall|other: IncidentId| #[trigger]
                store.incidents.contains_key(other) ==> after.incidents[other]
                    == store.incidents[other]
        }),
{
    let who = alert.identity();
    if store.by_alert.contains_key(who) {
        let holder = store.by_alert[who];
        assert(store.has_open(holder));
        let alerts = store.incidents[holder].alerts;
        let i = choose|i: int| 0 <= i < alerts.len() && (#[trigger] alerts[i]).identity() == who;
        assert(store.incidents[holder].alerts[i].source == alert.source);
    }
    if store.by_key.contains_key(key_of(alert)) {
        assert(store.incidents.contains_key(store.by_key[key_of(alert)]));
    }
    let after = decided(store, alert, now, fresh).0;
    assert(after.incidents.dom() =~= store.incidents.dom().insert(fresh));
    assert(after.incidents[fresh].alerts =~= seq![alert]);
}

/// A resolve of an alert that no open incident holds changes nothing, whatever its labels.
pub proof fn law_resolve_of_an_unknown_alert_is_dropped(
    store: StoreView,
    alert: AlertView,
    now: Timestamp,
    unused: IncidentId,
)
    requires
        store.consistent(),
        alert.status == AlertStatus::Resolved,
        forall|other: IncidentId, i: int|
            store.incidents.contains_key(other) && store.incidents[other].state
                == IncidentState::Open && 0 <= i < store.incidents[other].alerts.len() ==> !((
            #[trigger] store.incidents[other].alerts[i]).source == alert.source
                && store.incidents[other].alerts[i].source_alert_id == alert.source_alert_id),
    ensures
        decided(store, alert, now, unused).0 == store,
        decided(store, alert, now, unused).1 == Decision::DroppedResolve,
{
    let who = alert.identity();
    if store.by_alert.contains_key(who) {
        let holder = store.by_alert[who];
        assert(store.has_open(holder));
        let alerts = store.incidents[holder].alerts;
        let i = choose|i: int| 0 <= i < alerts.len() && (#[trigger] alerts[i]).identity() == who;
        assert(store.incidents[holder].alerts[i].source == alert.source);
    }
}

/// In a consistent store the incident that is found by an alert is the open one that holds it, and
/// the one that is found by a key is the open one with that source and those labels.
pub proof fn law_open_incidents_are_found(
    store: StoreView,
    id: IncidentId,
    source: Seq<char>,
    alert_id: Seq<char>,
    key: KeyView,
)
    requires
        store.consistent(),
    ensures
        store.by_alert.get((source, alert_id)) == Some(id) <==> store.incidents.contains_key(id)
            && store.incidents[id].state == IncidentState::Open && exists|i: int|
            0 <= i < store.incidents[id].alerts.len() && (
            #[trigger] store.incidents[id].alerts[i]).source == source
                && store.incidents[id].alerts[i].source_alert_id == alert_id,
        store.by_key.get(key) == Some(id) <==> store.incidents.contains_key(id)
            && store.incidents[id].state == IncidentState::Open && store.incidents[id].key.source
            == key.source && store.incidents[id].key.labels == key.labels,
{
    let who = (source, alert_id);
    if store.by_alert.get(who) == Some(id) {
        assert(store.by_alert.contains_key(who));
        let alerts = store.incidents[id].alerts;
        let i = choose|i: int| 0 <= i < alerts.len() && (#[trigger] alerts[i]).identity() == who;
        assert(store.incidents[id].alerts[i].source == source);
    }
    if store.has_open(id) && exists|i: int|
        0 <= i < store.incidents[id].alerts.len() && (
        #[trigger] store.incidents[id].alerts[i]).source == source
            && store.incidents[id].alerts[i].source_alert_id == alert_id {
        let i = choose|i: int|
            0 <= i < store.incidents[id].alerts.len() && (
            #[trigger] store.incidents[id].alerts[i]).source == source
                && store.incidents[id].alerts[i].source_alert_id == alert_id;
        assert(store.incidents[id].alerts[i].identity() == who);
    }
    if store.by_key.get(key) == Some(id) {
        assert(store.by_key.contains_key(key));
    }
    if store.has_open(id) && store.incidents[id].key.source == key.source
        && store.incidents[id].key.labels == key.labels {
        assert(store.incidents[id].key == key);
    }
}

/// An incident is idle exactly if it is open and its last activity is earlier than the cutoff; when
/// it was opened does not matter.
pub proof fn law_idle_goes_by_the_last_activity(store: StoreView, cutoff: Timestamp, id: IncidentId)
    ensures
        store.idle(cutoff).contains(id) <==> {
            let last = store.incidents[id].last_activity_at;
            &&& store.incidents.contains_key(id)
            &&& store.incidents[id].state == IncidentState::Open
            &&& last.secs() < cutoff.secs() || (last.secs() == cutoff.secs() && last.nanos()
                < cutoff.nanos())
        },
{
}

/// Expiry closes the open incidents whose last activity is earlier than the cutoff, for being idle
/// and as of now, and changes nothing else about them; every other incident stays as it was.
pub proof fn law_expiry_closes_exactly_the_idle(
    store: StoreView,
    cutoff: Timestamp,
    now: Timestamp,
    id: IncidentId,
)
    requires
        store.incidents.contains_key(id),
    ensures
        ({
            let after = store.expired(store.idle(cutoff), now);
            let last = store.incidents[id].last_activity_at;
            let idle = store.incidents[id].state == IncidentState::Open && (last.secs()
                < cutoff.secs() || (last.secs() == cutoff.secs() && last.nanos()
                < cutoff.nanos()));
            &&& after.incidents.dom() == store.incidents.dom()
            &&& idle ==> after.incidents[id] == (IncidentView {
                state: IncidentState::Closed { reason: CloseReason::IdleTtl, closed_at: now },
                ..store.incidents[id]
            })
            &&& !idle ==> after.incidents[id] == store.incidents[id]
        }),
{
    let after = store.expired(store.idle(cutoff), now);
    assert(after.incidents.dom() =~= store.incidents.dom());
    law_idle_goes_by_the_last_activity(store, cutoff, id);
}

/// An incident that an alert opened, joined or updated at or after the cutoff does not expire,
/// however long ago it was opened: it is not idle, and an expiry leaves it open and as it was.
pub proof fn law_activity_keeps_an_incident_from_expiring(
    store: StoreView,
    alert: AlertView,
    at: Timestamp,
    fresh: IncidentId,
    id: IncidentId,
    cutoff: Timestamp,
    now: Timestamp,
)
    requires
        store.consistent(),
        !store.incidents.contains_key(fresh),
        ({
            let decision = decided(store, alert, at, fresh).1;
            ||| decision == Decision::Opened { incident: id }
            ||| decision == Decision::Attached { incident: id }
            ||| decision == Decision::Updated { incident: id }
        }),
        cutoff.secs() < at.secs() || (cutoff.secs() == at.secs() && cutoff.nanos() <= at.nanos()),
    ensures
        ({
            let active = decided(store, alert, at, fresh).0;
            let swept = active.expired(active.idle(cutoff), now);
            &&& !active.idle(cutoff).contains(id)
            &&& swept.incidents[id] == active.incidents[id]
            &&& swept.incidents[id].state == IncidentState::Open
        }),
{
    law_decision_names_the_incident(store, alert, at, fresh);
    let active = decided(store, alert, at, fresh).0;
    law_expiry_closes_exactly_the_idle(active, cutoff, now, id);
    law_idle_goes_by_the_last_activity(active, cutoff, id);
}

/// After an expiry the incidents that stayed open are found as before, and those that were idle are
/// not found any more.
pub proof fn law_expired_incidents_are_not_found(
    store: StoreView,
    cutoff: Timestamp,
    now: Timestamp,
    who: (Seq<char>, Seq<char>),
    key: KeyView,
)
    requires
        store.consistent(),
    ensures
        ({
            let after = store.expired(store.idle(cutoff), now);
            &&& after.by_alert.get(who) == match store.by_alert.get(who) {
                Some(id) => if store.incidents[id].last_activity_at.before(cutoff) {
                    None
                } else {
                    Some(id)
                },
                None => None,
            }
            &&& after.by_key.get(key) == match store.by_key.get(key) {
                Some(id) => if store.incidents[id].last_activity_at.before(cutoff) {
                    None
                } else {
                    Some(id)
                },
                None => None,
            }
        }),
{
    let ids = store.idle(cutoff);
    let after = store.expired(ids, now);
    if store.by_alert.contains_key(who) {
        let id = store.by_alert[who];
        assert(store.has_open(id));
        assert(ids.contains(id) <==> store.incidents[id].last_activity_at.before(cutoff));
        assert forall|other: IncidentId| #[trigger]
            ids.contains(other) && holds_alert(store.incidents[other].alerts, who) implies other
            == id by {
            assert(store.has_open(other));
            let alerts = store.incidents[other].alerts;
            let j = choose|j: int| 0 <= j < alerts.len() && (#[trigger] alerts[j]).identity() == who;
            assert(store.by_alert[store.incidents[other].alerts[j].identity()] == other);
        }
        assert(after.by_alert.contains_key(who) <==> !ids.contains(id));
    }
    if store.by_key.contains_key(key) {
        let id = store.by_key[key];
        assert(store.has_open(id));
        assert(ids.contains(id) <==> store.incidents[id].last_activity_at.before(cutoff));
        assert forall|other: IncidentId| #[trigger]
            ids.contains(other) && store.incidents[other].key == key implies other == id by {
            assert(store.has_open(other));
        }
        assert(after.by_key.contains_key(key) <==> !ids.contains(id));
    }
}

/// What triage made of an incident is recorded on it and nowhere else, and finding incidents goes on
/// as before.
pub proof fn law_triage_is_recorded_on_its_incident(
    store: StoreView,
    id: IncidentId,
    triage: TriageView,
    other: IncidentId,
)
    requires
        store.incidents.contains_key(id),
    ensures
        ({
            let after = store.with_triage(id, triage);
            &&& after.incidents[id] == (IncidentView {
                triage: Some(triage),
                ..store.incidents[id]
            })
            &&& other != id ==> after.incidents.get(other) == store.incidents.get(other)
            &&& after.by_alert == store.by_alert
            &&& after.by_key == store.by_key
        }),
{
}

/// Putting an incident in, attaching an alert, and closing an incident leave every other incident as
/// it was, and every alert and key that is not concerned is found as before.
pub proof fn law_other_incidents_are_found_as_before(
    store: StoreView,
    incident: IncidentView,
    id: IncidentId,
    alert: AlertView,
    reason: CloseReason,
    now: Timestamp,
    other: IncidentId,
    who: (Seq<char>, Seq<char>),
    key: KeyView,
)
    ensures
        other != incident.id ==> store.inserted(incident).incidents.get(other)
            == store.incidents.get(other),
        (forall|i: int|
            0 <= i < incident.alerts.len() ==> !((#[trigger] incident.alerts[i]).source == who.0
                && incident.alerts[i].source_alert_id == who.1)) ==> store.inserted(
            incident,
        ).by_alert.get(who) == store.by_alert.get(who),
        key != incident.key ==> store.inserted(incident).by_key.get(key) == store.by_key.get(key),
        other != id ==> store.attached(id, alert, now).incidents.get(other)
            == store.incidents.get(other),
        who != (alert.source, alert.source_alert_id) ==> store.attached(id, alert, now).by_alert.get(
            who,
        ) == store.by_alert.get(who),
        store.attached(id, alert, now).by_key == store.by_key,
        other != id ==> store.closed(id, reason, now).incidents.get(other)
            == store.incidents.get(other),
        (forall|i: int|
            0 <= i < store.incidents[id].alerts.len() ==> !((
            #[trigger] store.incidents[id].alerts[i]).source == who.0
                && store.incidents[id].alerts[i].source_alert_id == who.1)) ==> store.closed(
            id,
            reason,
            now,
        ).by_alert.get(who) == store.by_alert.get(who),
        key != store.incidents[id].key ==> store.closed(id, reason, now).by_key.get(key)
            == store.by_key.get(key),
{
    if holds_alert(incident.alerts, who) {
        let i = choose|i: int|
            0 <= i < incident.alerts.len() && (#[trigger] incident.alerts[i]).identity() == who;
        assert(incident.alerts[i].source == who.0);
    }
    let alerts = store.incidents[id].alerts;
    if holds_alert(alerts, who) {
        let i = choose|i: int| 0 <= i < alerts.len() && (#[trigger] alerts[i]).identity() == who;
        assert(store.incidents[id].alerts[i].source == who.0);
    }
}

/// Recording a status changes the first alert of that source and id, and the time of the last
/// activity; every other alert, every other incident and the finding of incidents stay as they were.
pub proof fn law_status_is_recorded_on_the_first_such_alert(
    store: StoreView,
    id: IncidentId,
    at: int,
    status: AlertStatus,
    now: Timestamp,
    other: IncidentId,
)
    requires
        store.incidents.contains_key(id),
        0 <= at < store.incidents[id].alerts.len(),
        forall|j: int|
            0 <= j < at ==> !((#[trigger] store.incidents[id].alerts[j]).source
                == store.incidents[id].alerts[at].source
                && store.incidents[id].alerts[j].source_alert_id
                == store.incidents[id].alerts[at].source_alert_id),
    ensures
        ({
            let before = store.incidents[id];
            let who = (before.alerts[at].source, before.alerts[at].source_alert_id);
            let after = store.with_status(id, who, status, now);
            &&& after.incidents[id] == (IncidentView {
                alerts: before.alerts.update(at, AlertView { status, ..before.alerts[at] }),
                last_activity_at: now,
                ..before
            })
            &&& other != id ==> after.incidents.get(other) == store.incidents.get(other)
            &&& after.by_alert == store.by_alert
            &&& after.by_key == store.by_key
        }),
{
    let alerts = store.incidents[id].alerts;
    let who = (alerts[at].source, alerts[at].source_alert_id);
    assert(is_first(alerts, who, at)) by {
        assert forall|j: int| 0 <= j < at implies (#[trigger] alerts[j]).identity() != who by {
            assert(store.incidents[id].alerts[j] == alerts[j]);
        }
    }
    let first = choose|i: int| is_first(alerts, who, i);
    assert(first == at);
}

/// A decision touches no incident but the one that it names: every other one stays as it was. An
/// incident that was closed before is not named.
pub proof fn law_decision_touches_only_its_incident(
    store: StoreView,
    alert: AlertView,
    now: Timestamp,
    fresh: IncidentId,
    other: IncidentId,
)
    requires
        store.consistent(),
        !store.incidents.contains_key(fresh),
        store.incidents.contains_key(other),
    ensures
        ({
            let (after, decision) = decided(store, alert, now, fresh);
            let named = match decision {
                Decision::Opened { incident } => incident == other,
                Decision::Attached { incident } => incident == other,
                Decision::Updated { incident } => incident == other,
                Decision::Closed { incident } => incident == other,
                Decision::DroppedResolve => false,
            };
            &&& after.incidents.contains_key(other)
            &&& !named ==> after.incidents[other] == store.incidents[other]
            &&& named ==> store.incidents[other].state == IncidentState::Open
        }),
{
    let who = alert.identity();
    if store.by_alert.contains_key(who) {
        assert(store.has_open(store.by_alert[who]));
    } else if store.by_key.contains_key(key_of(alert)) {
        assert(store.has_open(store.by_key[key_of(alert)]));
    }
}

/// Recording a status of an alert that the incident does not hold changes nothing; it is no activity
/// either.
pub proof fn law_status_of_an_unknown_alert_changes_nothing(
    store: StoreView,
    id: IncidentId,
    who: (Seq<char>, Seq<char>),
    status: AlertStatus,
    now: Timestamp,
)
    requires
        store.incidents.contains_key(id),
        forall|i: int|
            0 <= i < store.incidents[id].alerts.len() ==> !((
            #[trigger] store.incidents[id].alerts[i]).source == who.0
                && store.incidents[id].alerts[i].source_alert_id == who.1),
    ensures
        store.with_status(id, who, status, now) == store,
{
    let alerts = store.incidents[id].alerts;
    if exists|i: int| is_first(alerts, who, i) {
        let i = choose|i: int| is_first(alerts, who, i);
        assert(store.incidents[id].alerts[i].source == who.0);
    }
    assert(store.with_status(id, who, status, now).incidents =~= store.incidents);
}

/// Attaching an alert puts it behind those that the incident has, and counts as activity; nothing
/// else about the incident changes, and it is found by the alert.
pub proof fn law_attached_alert_is_the_last(
    store: StoreView,
    id: IncidentId,
    alert: AlertView,
    now: Timestamp,
)
    requires
        store.incidents.contains_key(id),
    ensures
        store.attached(id, alert, now).incidents[id] == (IncidentView {
            alerts: store.incidents[id].alerts.push(alert),
            last_activity_at: now,
            ..store.incidents[id]
        }),
        store.attached(id, alert, now).by_alert.get((alert.source, alert.source_alert_id)) == Some(
            id,
        ),
{
}

/// What a store that was empty holds after these alerts, one after another, each with the time at
/// which it came and the id for an incident that it may open.
pub open spec fn after_alerts(events: Seq<(AlertView, Timestamp, IncidentId)>) -> StoreView
    decreases events.len(),
{
    if events.len() == 0 {
        StoreView::empty()
    } else {
        let last = events.last();
        decided(after_alerts(events.drop_last()), last.0, last.1, last.2).0
    }
}

proof fn lemma_alerts_keep_consistency(events: Seq<(AlertView, Timestamp, IncidentId)>)
    requires
        forall|n: int|
            0 <= n < events.len() ==> !after_alerts(events.take(n)).incidents.contains_key(
                (#[trigger] events[n]).2,
            ),
    ensures
        after_alerts(events).consistent(),
        events.len() > 0 ==> after_alerts(events.drop_last()).consistent(),
        events.len() > 0 ==> !after_alerts(events.drop_last()).incidents.contains_key(
            events.last().2,
        ),
        forall|n: int|
            0 <= n < events.len() - 1 ==> !after_alerts(
                events.drop_last().take(n),
            ).incidents.contains_key((#[trigger] events.drop_last()[n]).2),
    decreases events.len(),
{
    law_empty_store_is_consistent();
    if events.len() > 0 {
        let before = events.drop_last();
        let last = events.last();
        assert forall|n: int| 0 <= n < before.len() implies !after_alerts(
            before.take(n),
        ).incidents.contains_key((#[trigger] before[n]).2) by {
            assert(before[n] == events[n]);
            assert(before.take(n) =~= events.take(n));
        }
        lemma_alerts_keep_consistency(before);
        assert(events[events.len() - 1] == last);
        assert(events.take(events.len() - 1) =~= before);
        law_decide_keeps_consistency(after_alerts(before), last.0, last.1, last.2);
    }
}

/// After an event, an alert in an open incident has the status of the event if it is the alert of the
/// event, and is as it was before if it is not.
proof fn lemma_event_or_as_before(
    store: StoreView,
    alert: AlertView,
    now: Timestamp,
    fresh: IncidentId,
    id: IncidentId,
    i: int,
)
    requires
        store.consistent(),
        !store.incidents.contains_key(fresh),
        decided(store, alert, now, fresh).0.consistent(),
        decided(store, alert, now, fresh).0.has_open(id),
        0 <= i < decided(store, alert, now, fresh).0.incidents[id].alerts.len(),
    ensures
        ({
            let held = decided(store, alert, now, fresh).0.incidents[id].alerts[i];
            &&& held.identity() == alert.identity() ==> held.status == alert.status
            &&& held.identity() != alert.identity() ==> store.has_open(id) && i
                < store.incidents[id].alerts.len() && store.incidents[id].alerts[i] == held
        }),
{
    let after = decided(store, alert, now, fresh).0;
    let held = after.incidents[id].alerts[i];
    let who = alert.identity();
    if store.by_alert.contains_key(who) {
        let holder = store.by_alert[who];
        let at = lemma_status_keeps_indexes(store, who, alert.status, now);
        assert(store.has_open(holder));
        law_event_sets_the_status_of_its_alert(store, holder, at, alert, now, fresh);
        if id == holder {
            if i != at {
                assert(store.incidents[id].alerts_belong());
                assert(store.incidents[id].alerts[i].identity()
                    != store.incidents[id].alerts[at].identity());
            }
        } else {
            assert(store.incidents.contains_key(id));
            assert(store.has_open(id));
            assert(store.by_alert[store.incidents[id].alerts[i].identity()] == id);
        }
    } else if alert.status == AlertStatus::Resolved {
        assert(store.by_alert.contains_key(store.incidents[id].alerts[i].identity()));
    } else if store.by_key.contains_key(key_of(alert)) {
        let joined = store.by_key[key_of(alert)];
        assert(store.has_open(joined));
        if id != joined || i < store.incidents[id].alerts.len() {
            assert(store.has_open(id));
            assert(store.incidents[id].alerts[i] == held);
            assert(store.by_alert.contains_key(store.incidents[id].alerts[i].identity()));
        }
    } else if id != fresh {
        assert(store.has_open(id));
        assert(store.by_alert.contains_key(store.incidents[id].alerts[i].identity()));
    } else {
        assert(after.incidents[fresh].alerts =~= seq![alert]);
    }
}

/// The event at `latest` is the last one on this alert.
spec fn is_latest(
    events: Seq<(AlertView, Timestamp, IncidentId)>,
    who: (Seq<char>, Seq<char>),
    latest: int,
) -> bool {
    &&& 0 <= latest < events.len()
    &&& events[latest].0.identity() == who
    &&& forall|n: int| latest < n < events.len() ==> (#[trigger] events[n]).0.identity() != who
}

proof fn lemma_latest_stays(
    events: Seq<(AlertView, Timestamp, IncidentId)>,
    who: (Seq<char>, Seq<char>),
    latest: int,
)
    requires
        events.len() > 0,
        is_latest(events.drop_last(), who, latest),
        events.last().0.identity() != who,
    ensures
        is_latest(events, who, latest),
        events[latest] == events.drop_last()[latest],
{
    assert forall|n: int| latest < n < events.len() implies (#[trigger] events[n]).0.identity()
        != who by {
        if n < events.len() - 1 {
            assert(events.drop_last()[n] == events[n]);
        } else {
            assert(events[n] == events.last());
        }
    }
}

proof fn lemma_latest_event(
    events: Seq<(AlertView, Timestamp, IncidentId)>,
    id: IncidentId,
    i: int,
) -> (latest: int)
    requires
        forall|n: int|
            0 <= n < events.len() ==> !after_alerts(events.take(n)).incidents.contains_key(
                (#[trigger] events[n]).2,
            ),
        after_alerts(events).has_open(id),
        0 <= i < after_alerts(events).incidents[id].alerts.len(),
    ensures
        is_latest(events, after_alerts(events).incidents[id].alerts[i].identity(), latest),
        events[latest].0.status == after_alerts(events).incidents[id].alerts[i].status,
    decreases events.len(),
{
    lemma_alerts_keep_consistency(events);
    let before = events.drop_last();
    let last = events.last();
    let held = after_alerts(events).incidents[id].alerts[i];
    lemma_event_or_as_before(after_alerts(before), last.0, last.1, last.2, id, i);
    if held.identity() == last.0.identity() {
        events.len() - 1
    } else {
        let latest = lemma_latest_event(before, id, i);
        lemma_latest_stays(events, held.identity(), latest);
        latest
    }
}

/// The status of an alert in an open incident is that of the latest event on it, at whatever place
/// among the events that stood: the event at the place that is returned is on this alert and has its
/// status, and no later one is on it.
pub proof fn law_status_is_that_of_the_latest_event(
    events: Seq<(AlertView, Timestamp, IncidentId)>,
    id: IncidentId,
    i: int,
) -> (latest: int)
    requires
        forall|n: int|
            0 <= n < events.len() ==> !after_alerts(events.take(n)).incidents.contains_key(
                (#[trigger] events[n]).2,
            ),
        after_alerts(events).incidents.contains_key(id),
        after_alerts(events).incidents[id].state == IncidentState::Open,
        0 <= i < after_alerts(events).incidents[id].alerts.len(),
    ensures
        ({
            let held = after_alerts(events).incidents[id].alerts[i];
            &&& 0 <= latest < events.len()
            &&& events[latest].0.source == held.source
            &&& events[latest].0.source_alert_id == held.source_alert_id
            &&& events[latest].0.status == held.status
            &&& forall|n: int|
                latest < n < events.len() ==> !((#[trigger] events[n]).0.source == held.source
                    && events[n].0.source_alert_id == held.source_alert_id)
        }),
{
    let latest = lemma_latest_event(events, id, i);
    let who = after_alerts(events).incidents[id].alerts[i].identity();
    assert forall|n: int| latest < n < events.len() implies !((#[trigger] events[n]).0.source
        == who.0 && events[n].0.source_alert_id == who.1) by {
        assert(events[n].0.identity() != who);
    }
    latest
}

/// An incident is closed by an alert only where the latest event on each of its alerts is a resolve:
/// the event at the place that is returned resolves the alert, and no later one is on it.
pub proof fn law_closed_only_when_every_latest_event_is_a_resolve(
    events: Seq<(AlertView, Timestamp, IncidentId)>,
    id: IncidentId,
    i: int,
) -> (latest: int)
    requires
        events.len() > 0,
        forall|n: int|
            0 <= n < events.len() ==> !after_alerts(events.take(n)).incidents.contains_key(
                (#[trigger] events[n]).2,
            ),
        decided(
            after_alerts(events.drop_last()),
            events.last().0,
            events.last().1,
            events.last().2,
        ).1 == (Decision::Closed { incident: id }),
        0 <= i < after_alerts(events).incidents[id].alerts.len(),
    ensures
        ({
            let held = after_alerts(events).incidents[id].alerts[i];
            &&& 0 <= latest < events.len()
            &&& events[latest].0.source == held.source
            &&& events[latest].0.source_alert_id == held.source_alert_id
            &&& events[latest].0.status == AlertStatus::Resolved
            &&& forall|n: int|
                latest < n < events.len() ==> !((#[trigger] events[n]).0.source == held.source
                    && events[n].0.source_alert_id == held.source_alert_id)
        }),
{
    lemma_alerts_keep_consistency(events);
    let before = events.drop_last();
    let last = events.last();
    let who = after_alerts(events).incidents[id].alerts[i].identity();
    let at = lemma_closing_alert(after_alerts(before), last.0, last.1, last.2, id, i);
    let latest = if i == at {
        events.len() - 1
    } else {
        let earlier = lemma_latest_event(before, id, i);
        lemma_latest_stays(events, who, earlier);
        earlier
    };
    assert(is_latest(events, who, latest));
    assert forall|n: int| latest < n < events.len() implies !((#[trigger] events[n]).0.source
        == who.0 && events[n].0.source_alert_id == who.1) by {
        assert(events[n].0.identity() != who);
    }
    latest
}

/// Where an alert closes an incident, it stands at one place there, and the others are as they were.
proof fn lemma_closing_alert(
    store: StoreView,
    alert: AlertView,
    now: Timestamp,
    fresh: IncidentId,
    id: IncidentId,
    i: int,
) -> (at: int)
    requires
        store.consistent(),
        decided(store, alert, now, fresh).1 == (Decision::Closed { incident: id }),
        0 <= i < decided(store, alert, now, fresh).0.incidents[id].alerts.len(),
    ensures
        ({
            let held = decided(store, alert, now, fresh).0.incidents[id].alerts[i];
            &&& store.has_open(id)
            &&& i < store.incidents[id].alerts.len()
            &&& held.status == AlertStatus::Resolved
            &&& i == at ==> held.source == alert.source && held.source_alert_id
                == alert.source_alert_id && alert.status == AlertStatus::Resolved
            &&& i != at ==> held == store.incidents[id].alerts[i] && !(held.source == alert.source
                && held.source_alert_id == alert.source_alert_id)
        }),
{
    let who = alert.identity();
    law_closed_only_with_every_alert_resolved(store, alert, now, fresh);
    let at = lemma_status_keeps_indexes(store, who, alert.status, now);
    assert(store.has_open(id));
    law_event_sets_the_status_of_its_alert(store, id, at, alert, now, fresh);
    if i != at {
        assert(store.incidents[id].alerts_belong());
        assert(store.incidents[id].alerts[i].identity()
            != store.incidents[id].alerts[at].identity());
    }
    at
}

} // verus!
