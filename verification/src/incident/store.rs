//! Where incidents are kept and found again.
use super::index::{Index, IndexKey};
use super::{
    alert_views, CloseReason, DedupeKey, Incident, IncidentId, IncidentState, IncidentView, KeyView,
};
use crate::alert::{Alert, AlertStatus, AlertView};
use crate::text::same_text;
use crate::time::Timestamp;
use crate::triage::{TriageResult, TriageView};
use std::collections::BTreeMap;
use vstd::prelude::*;

verus! {

broadcast use vstd::std_specs::btree::group_btree_axioms;

/// One of the alerts has this identity.
pub open spec fn holds_alert(alerts: Seq<AlertView>, who: (Seq<char>, Seq<char>)) -> bool {
    exists|i: int| 0 <= i < alerts.len() && (#[trigger] alerts[i]).identity() == who
}

/// The identities of the alerts.
pub open spec fn identities(alerts: Seq<AlertView>) -> Set<(Seq<char>, Seq<char>)> {
    Set::new(|who: (Seq<char>, Seq<char>)| holds_alert(alerts, who))
}

/// The alert at `i` is the first with this identity.
pub open spec fn is_first(alerts: Seq<AlertView>, who: (Seq<char>, Seq<char>), i: int) -> bool {
    &&& 0 <= i < alerts.len()
    &&& alerts[i].identity() == who
    &&& forall|j: int| 0 <= j < i ==> (#[trigger] alerts[j]).identity() != who
}

impl IncidentView {
    /// With one more alert.
    pub open spec fn with_alert(self, alert: AlertView, now: Timestamp) -> IncidentView {
        IncidentView { alerts: self.alerts.push(alert), last_activity_at: now, ..self }
    }

    /// With a new status for the first alert of this identity; unchanged where it holds none.
    pub open spec fn with_status(
        self,
        who: (Seq<char>, Seq<char>),
        status: AlertStatus,
        now: Timestamp,
    ) -> IncidentView {
        if exists|i: int| is_first(self.alerts, who, i) {
            let i = choose|i: int| is_first(self.alerts, who, i);
            IncidentView {
                alerts: self.alerts.update(i, AlertView { status, ..self.alerts[i] }),
                last_activity_at: now,
                ..self
            }
        } else {
            self
        }
    }

    /// Closed.
    pub open spec fn closed(self, reason: CloseReason, now: Timestamp) -> IncidentView {
        IncidentView { state: IncidentState::Closed { reason, closed_at: now }, ..self }
    }

    /// Open, with no activity since `cutoff`.
    pub open spec fn idle_since(self, cutoff: Timestamp) -> bool {
        self.state == IncidentState::Open && self.last_activity_at.before(cutoff)
    }
}

/// What a store of incidents holds: every incident by its id, and the two indexes by which open
/// incidents are found.
#[verifier::ext_equal]
pub struct StoreView {
    pub incidents: Map<IncidentId, IncidentView>,
    pub by_alert: Map<(Seq<char>, Seq<char>), IncidentId>,
    pub by_key: Map<KeyView, IncidentId>,
}

impl StoreView {
    /// A store without incidents.
    pub open spec fn empty() -> StoreView {
        StoreView { incidents: Map::empty(), by_alert: Map::empty(), by_key: Map::empty() }
    }

    /// With `incident` put in under its id, and found by each of its alerts and by its key.
    pub open spec fn inserted(self, incident: IncidentView) -> StoreView {
        StoreView {
            incidents: self.incidents.insert(incident.id, incident),
            by_alert: Map::new(
                |who: (Seq<char>, Seq<char>)|
                    holds_alert(incident.alerts, who) || self.by_alert.contains_key(who),
                |who: (Seq<char>, Seq<char>)|
                    if holds_alert(incident.alerts, who) {
                        incident.id
                    } else {
                        self.by_alert[who]
                    },
            ),
            by_key: self.by_key.insert(incident.key, incident.id),
        }
    }

    /// With `alert` attached to the incident; unchanged where there is no such incident.
    pub open spec fn attached(
        self,
        id: IncidentId,
        alert: AlertView,
        now: Timestamp,
    ) -> StoreView {
        if self.incidents.contains_key(id) {
            StoreView {
                incidents: self.incidents.insert(id, self.incidents[id].with_alert(alert, now)),
                by_alert: self.by_alert.insert(alert.identity(), id),
                ..self
            }
        } else {
            self
        }
    }

    /// With a new status for an alert of the incident; unchanged where there is no such incident.
    pub open spec fn with_status(
        self,
        id: IncidentId,
        who: (Seq<char>, Seq<char>),
        status: AlertStatus,
        now: Timestamp,
    ) -> StoreView {
        if self.incidents.contains_key(id) {
            StoreView {
                incidents: self.incidents.insert(
                    id,
                    self.incidents[id].with_status(who, status, now),
                ),
                ..self
            }
        } else {
            self
        }
    }

    /// With a triage result on the incident; unchanged where there is no such incident.
    pub open spec fn with_triage(self, id: IncidentId, triage: TriageView) -> StoreView {
        if self.incidents.contains_key(id) {
            StoreView {
                incidents: self.incidents.insert(
                    id,
                    IncidentView { triage: Some(triage), ..self.incidents[id] },
                ),
                ..self
            }
        } else {
            self
        }
    }

    /// With the incident closed and no longer found by its alerts or by its key; unchanged where
    /// there is no such incident. The incident itself stays.
    pub open spec fn closed(self, id: IncidentId, reason: CloseReason, now: Timestamp) -> StoreView {
        if self.incidents.contains_key(id) {
            let incident = self.incidents[id];
            StoreView {
                incidents: self.incidents.insert(id, incident.closed(reason, now)),
                by_alert: self.by_alert.remove_keys(identities(incident.alerts)),
                by_key: self.by_key.remove(incident.key),
            }
        } else {
            self
        }
    }

    /// The incidents that are open without activity since `cutoff`.
    pub open spec fn idle(self, cutoff: Timestamp) -> Set<IncidentId> {
        Set::new(
            |id: IncidentId|
                self.incidents.contains_key(id) && self.incidents[id].idle_since(cutoff),
        )
    }

    /// With all the incidents in `ids` closed for being idle.
    pub open spec fn expired(self, ids: Set<IncidentId>, now: Timestamp) -> StoreView {
        StoreView {
            incidents: self.incidents.map_entries(
                |id: IncidentId, incident: IncidentView|
                    if ids.contains(id) {
                        incident.closed(CloseReason::IdleTtl, now)
                    } else {
                        incident
                    },
            ),
            by_alert: self.by_alert.remove_keys(
                Set::new(
                    |who: (Seq<char>, Seq<char>)|
                        exists|id: IncidentId| #[trigger]
                            ids.contains(id) && holds_alert(self.incidents[id].alerts, who),
                ),
            ),
            by_key: self.by_key.remove_keys(
                Set::new(
                    |key: KeyView|
                        exists|id: IncidentId| #[trigger]
                            ids.contains(id) && self.incidents[id].key == key,
                ),
            ),
        }
    }
}

/// Ids in strictly ascending order.
pub open spec fn ids_ascend(ids: Seq<IncidentId>) -> bool {
    forall|i: int, j: int| 0 <= i < j < ids.len() ==> (#[trigger] ids[i]).0 < (#[trigger] ids[j]).0
}

/// A store of incidents.
pub trait IncidentStore {
    /// What the store holds.
    spec fn model(&self) -> StoreView;

    /// The store is in order.
    spec fn wf(&self) -> bool;

    /// Puts an incident in and makes it found by its alerts and its key.
    fn insert(&mut self, incident: Incident)
        requires
            old(self).wf(),
        ensures
            final(self).wf(),
            final(self).model() == old(self).model().inserted(incident@),
    ;

    /// The incident with this id, open or closed.
    fn get(&self, id: IncidentId) -> (found: Option<&Incident>)
        requires
            self.wf(),
        ensures
            found is Some <==> self.model().incidents.contains_key(id),
            found matches Some(incident) ==> incident@ == self.model().incidents[id],
    ;

    /// The open incident that holds this alert.
    fn find_open_by_alert(&self, source: &str, alert_id: &str) -> (found: Option<IncidentId>)
        requires
            self.wf(),
        ensures
            found == self.model().by_alert.get((source@, alert_id@)),
    ;

    /// The open incident with this key.
    fn find_open_by_key(&self, key: &DedupeKey) -> (found: Option<IncidentId>)
        requires
            self.wf(),
        ensures
            found == self.model().by_key.get(key@),
    ;

    /// Attaches an alert to an incident.
    fn attach_alert(&mut self, id: IncidentId, alert: Alert, now: Timestamp)
        requires
            old(self).wf(),
        ensures
            final(self).wf(),
            final(self).model() == old(self).model().attached(id, alert@, now),
    ;

    /// Records the status of an alert that an incident holds.
    fn set_alert_status(
        &mut self,
        id: IncidentId,
        source: &str,
        alert_id: &str,
        status: AlertStatus,
        now: Timestamp,
    )
        requires
            old(self).wf(),
        ensures
            final(self).wf(),
            final(self).model() == old(self).model().with_status(
                id,
                (source@, alert_id@),
                status,
                now,
            ),
    ;

    /// Records what triage made of an incident.
    fn set_triage(&mut self, id: IncidentId, triage: TriageResult)
        requires
            old(self).wf(),
        ensures
            final(self).wf(),
            final(self).model() == old(self).model().with_triage(id, triage@),
    ;

    /// Closes an incident; it is no longer found by its alerts or its key, but stays readable.
    fn close(&mut self, id: IncidentId, reason: CloseReason, now: Timestamp)
        requires
            old(self).wf(),
        ensures
            final(self).wf(),
            final(self).model() == old(self).model().closed(id, reason, now),
    ;

    /// Closes every open incident without activity since `cutoff` and returns their ids in
    /// ascending order.
    fn expire_idle_before(&mut self, cutoff: Timestamp, now: Timestamp) -> (ids: Vec<IncidentId>)
        requires
            old(self).wf(),
        ensures
            final(self).wf(),
            ids_ascend(ids@),
            ids@.to_set() == old(self).model().idle(cutoff),
            final(self).model() == old(self).model().expired(old(self).model().idle(cutoff), now),
    ;
}

/// The identity of an alert, as an index key.
struct AlertKey {
    source: String,
    alert_id: String,
}

impl View for AlertKey {
    type V = (Seq<char>, Seq<char>);

    closed spec fn view(&self) -> (Seq<char>, Seq<char>) {
        (self.source@, self.alert_id@)
    }
}

impl IndexKey for AlertKey {
    fn same_key(&self, other: &Self) -> (same: bool) {
        same_text(self.source.as_str(), other.source.as_str()) && same_text(
            self.alert_id.as_str(),
            other.alert_id.as_str(),
        )
    }
}

fn alert_key(source: &str, alert_id: &str) -> (key: AlertKey)
    ensures
        key@ == (source@, alert_id@),
{
    AlertKey { source: source.to_owned(), alert_id: alert_id.to_owned() }
}

/// A store that keeps its incidents in memory.
pub struct InMemoryStore {
    incidents: BTreeMap<u128, Incident>,
    open_by_alert: Index<AlertKey>,
    open_by_key: Index<DedupeKey>,
}

impl InMemoryStore {
    spec fn incident_views(&self) -> Map<IncidentId, IncidentView> {
        Map::new(
            |id: IncidentId| self.incidents@.contains_key(id.0),
            |id: IncidentId| self.incidents@[id.0]@,
        )
    }

    /// A store without incidents.
    #[must_use]
    pub fn new() -> (store: Self)
        ensures
            store.wf(),
            store.model() == StoreView::empty(),
    {
        let store = InMemoryStore {
            incidents: BTreeMap::new(),
            open_by_alert: Index::new(),
            open_by_key: Index::new(),
        };
        assert(store.model() =~= StoreView::empty());
        store
    }
}

impl Default for InMemoryStore {
    fn default() -> (store: Self)
        ensures
            store.wf(),
            store.model() == StoreView::empty(),
    {
        InMemoryStore::new()
    }
}

impl IncidentStore for InMemoryStore {
    closed spec fn model(&self) -> StoreView {
        StoreView {
            incidents: self.incident_views(),
            by_alert: self.open_by_alert@,
            by_key: self.open_by_key@,
        }
    }

    closed spec fn wf(&self) -> bool {
        &&& self.open_by_alert.wf()
        &&& self.open_by_key.wf()
        &&& forall|bits: u128| #[trigger]
            self.incidents@.contains_key(bits) ==> self.incidents@[bits].id.0 == bits
    }

    fn insert(&mut self, incident: Incident) {
        let ghost before = self.model();
        let ghost view = incident@;
        let id: IncidentId = incident.id;
        let mut i: usize = 0;
        while i < incident.alerts.len()
            invariant
                i <= incident.alerts.len(),
                id == incident.id,
                view == incident@,
                self.open_by_alert.wf(),
                self.open_by_key.wf(),
                forall|bits: u128| #[trigger]
                    self.incidents@.contains_key(bits) ==> self.incidents@[bits].id.0 == bits,
                self.incident_views() == before.incidents,
                self.open_by_key@ == before.by_key,
                forall|who: (Seq<char>, Seq<char>)| #[trigger]
                    self.open_by_alert@.contains_key(who) <==> before.by_alert.contains_key(who)
                        || holds_alert(view.alerts.take(i as int), who),
                forall|who: (Seq<char>, Seq<char>)| #[trigger]
                    self.open_by_alert@.contains_key(who) ==> self.open_by_alert@[who]
                        == if holds_alert(view.alerts.take(i as int), who) {
                        id
                    } else {
                        before.by_alert[who]
                    },
            decreases incident.alerts.len() - i,
        {
            let alert: &Alert = &incident.alerts[i];
            self.open_by_alert.insert(
                alert_key(alert.source, alert.source_alert_id.as_str()),
                id,
            );
            proof {
                lemma_holds_next(view.alerts, i as int);
            }
            i = i + 1;
        }
        assert(view.alerts.take(i as int) =~= view.alerts);
        self.open_by_key.insert(incident.key.clone(), id);
        let _ = self.incidents.insert(id.0, incident);
        proof {
            assert(self.open_by_alert@ =~= before.inserted(view).by_alert);
            assert(self.incident_views() =~= before.inserted(view).incidents);
            assert(self.model() =~= before.inserted(view));
        }
    }

    fn get(&self, id: IncidentId) -> (found: Option<&Incident>) {
        self.incidents.get(&id.0)
    }

    fn find_open_by_alert(&self, source: &str, alert_id: &str) -> (found: Option<IncidentId>) {
        self.open_by_alert.get(&alert_key(source, alert_id))
    }

    fn find_open_by_key(&self, key: &DedupeKey) -> (found: Option<IncidentId>) {
        self.open_by_key.get(key)
    }

    fn attach_alert(&mut self, id: IncidentId, alert: Alert, now: Timestamp) {
        let ghost before = self.model();
        let ghost view = alert@;
        if let Some(mut incident) = self.incidents.remove(&id.0) {
            let ghost held = incident@;
            let key: AlertKey = alert_key(alert.source, alert.source_alert_id.as_str());
            incident.alerts.push(alert);
            incident.last_activity_at = now;
            assert(incident@.alerts =~= held.alerts.push(view));
            let _ = self.incidents.insert(id.0, incident);
            self.open_by_alert.insert(key, id);
            assert(self.incident_views() =~= before.attached(id, view, now).incidents);
        }
        assert(self.model() =~= before.attached(id, view, now));
    }

    fn set_alert_status(
        &mut self,
        id: IncidentId,
        source: &str,
        alert_id: &str,
        status: AlertStatus,
        now: Timestamp,
    ) {
        let ghost before = self.model();
        let ghost who = (source@, alert_id@);
        if let Some(mut incident) = self.incidents.remove(&id.0) {
            let ghost held = incident@;
            let position: Option<usize> = find_alert(&incident.alerts, source, alert_id);
            if let Some(i) = position {
                set_status(&mut incident.alerts, i, status);
                incident.last_activity_at = now;
                proof {
                    let first = choose|j: int| is_first(held.alerts, who, j);
                    assert(first == i);
                }
            }
            assert(incident@ == held.with_status(who, status, now));
            let _ = self.incidents.insert(id.0, incident);
            assert(self.incident_views() =~= before.with_status(id, who, status, now).incidents);
        }
        assert(self.model() =~= before.with_status(id, who, status, now));
    }

    fn set_triage(&mut self, id: IncidentId, triage: TriageResult) {
        let ghost before = self.model();
        let ghost view = triage@;
        if let Some(mut incident) = self.incidents.remove(&id.0) {
            incident.triage = Some(triage);
            let _ = self.incidents.insert(id.0, incident);
            assert(self.incident_views() =~= before.with_triage(id, view).incidents);
        }
        assert(self.model() =~= before.with_triage(id, view));
    }

    fn close(&mut self, id: IncidentId, reason: CloseReason, now: Timestamp) {
        let ghost before = self.model();
        if let Some(mut incident) = self.incidents.remove(&id.0) {
            let ghost held = incident@;
            let ghost others = self.incidents@;
            incident.state = IncidentState::Closed { reason, closed_at: now };
            let mut i: usize = 0;
            while i < incident.alerts.len()
                invariant
                    i <= incident.alerts.len(),
                    alert_views(incident.alerts@) == held.alerts,
                    self.open_by_alert.wf(),
                    self.open_by_key.wf(),
                    self.open_by_key@ == before.by_key,
                    forall|who: (Seq<char>, Seq<char>)| #[trigger]
                        self.open_by_alert@.contains_key(who) <==> before.by_alert.contains_key(who)
                            && !holds_alert(held.alerts.take(i as int), who),
                    forall|who: (Seq<char>, Seq<char>)| #[trigger]
                        self.open_by_alert@.contains_key(who) ==> self.open_by_alert@[who]
                            == before.by_alert[who],
                    self.incidents@ == others,
                decreases incident.alerts.len() - i,
            {
                let alert: &Alert = &incident.alerts[i];
                self.open_by_alert.remove(
                    &alert_key(alert.source, alert.source_alert_id.as_str()),
                );
                proof {
                    lemma_holds_next(held.alerts, i as int);
                }
                i = i + 1;
            }
            assert(held.alerts.take(i as int) =~= held.alerts);
            self.open_by_key.remove(&incident.key);
            let _ = self.incidents.insert(id.0, incident);
            proof {
                let after = before.closed(id, reason, now);
                assert(self.open_by_alert@ =~= after.by_alert);
                assert(self.incident_views() =~= after.incidents);
            }
        }
        assert(self.model() =~= before.closed(id, reason, now));
    }

    fn expire_idle_before(&mut self, cutoff: Timestamp, now: Timestamp) -> (ids: Vec<IncidentId>) {
        let ghost before = self.model();
        let ids: Vec<IncidentId> = self.idle_ids(cutoff);
        let mut i: usize = 0;
        proof {
            lemma_expired_none(before, now);
            assert forall|j: int| 0 <= j < ids.len() implies before.incidents.contains_key(
                #[trigger] ids[j],
            ) by {
                assert(ids@.to_set().contains(ids@[j]));
            }
            assert(ids@.take(0).to_set() =~= Set::empty());
        }
        while i < ids.len()
            invariant
                i <= ids.len(),
                self.wf(),
                ids_ascend(ids@),
                forall|j: int| 0 <= j < ids.len() ==> before.incidents.contains_key(
                    #[trigger] ids[j],
                ),
                self.model() == before.expired(ids@.take(i as int).to_set(), now),
            decreases ids.len() - i,
        {
            self.close(ids[i], CloseReason::IdleTtl, now);
            proof {
                let done = ids@.take(i as int);
                lemma_expired_one_more(before, done.to_set(), ids@[i as int], now);
                assert(ids@.take(i + 1) =~= done.push(ids@[i as int]));
                assert(ids@.take(i + 1).to_set() =~= done.to_set().insert(ids@[i as int])) by {
                    broadcast use vstd::seq_lib::group_seq_properties;
                }
            }
            i = i + 1;
        }
        assert(ids@.take(i as int) =~= ids@);
        ids
    }
}

impl InMemoryStore {
    /// The ids of the incidents that are open without activity since `cutoff`, in ascending order.
    fn idle_ids(&self, cutoff: Timestamp) -> (ids: Vec<IncidentId>)
        requires
            self.wf(),
        ensures
            ids_ascend(ids@),
            ids@.to_set() == self.model().idle(cutoff),
    {
        let mut ids: Vec<IncidentId> = Vec::new();
        for entry in it: self.incidents.iter()
            invariant
                self.wf(),
                it.seq().len() == self.incidents@.dom().len(),
                forall|k: int|
                    0 <= k < it.seq().len() ==> self.incidents@.contains_key(
                        *(#[trigger] it.seq()[k]).0,
                    ) && self.incidents@[*it.seq()[k].0] == *it.seq()[k].1,
                vstd::std_specs::btree::increasing_seq(entry_keys(it.seq())),
                ids_ascend(ids@),
                forall|a: int|
                    0 <= a < ids.len() ==> self.model().idle(cutoff).contains(#[trigger] ids[a]),
                forall|a: int|
                    0 <= a < ids.len() ==> seen_key(
                        it.seq(),
                        it.index() as int,
                        (#[trigger] ids[a]).0,
                    ),
                forall|k: int|
                    0 <= k < it.index() && (*it.seq()[k].1)@.idle_since(cutoff) ==> ids@.contains(
                        IncidentId(*(#[trigger] it.seq()[k]).0),
                    ),
        {
            let incident: &Incident = entry.1;
            let idle: bool = match incident.state {
                IncidentState::Open => incident.last_activity_at.before(cutoff),
                _ => false,
            };
            let ghost found = ids@;
            if idle {
                ids.push(incident.id);
            }
            proof {
                lemma_keys_increase(it.seq());
                if idle {
                    assert(ids@[found.len() as int] == IncidentId(*entry.0));
                    assert forall|id: IncidentId| found.contains(id) implies ids@.contains(id) by {
                        let a = choose|a: int| 0 <= a < found.len() && found[a] == id;
                        assert(ids@[a] == id);
                    }
                }
            }
        }
        ids
    }
}

/// The entries of a map come in ascending order of their keys.
proof fn lemma_keys_increase(entries: Seq<(&u128, &Incident)>)
    requires
        vstd::std_specs::btree::increasing_seq(entry_keys(entries)),
    ensures
        forall|i: int, j: int|
            0 <= i < j < entries.len() ==> *(#[trigger] entries[i]).0 < *(#[trigger] entries[j]).0,
{
    let keys = entry_keys(entries);
    assert forall|i: int, j: int| 0 <= i < j < entries.len() implies *(#[trigger] entries[i]).0
        < *(#[trigger] entries[j]).0 by {
        assert(vstd::std_specs::cmp::OrdSpec::cmp_spec(&keys[i], &keys[j]) is Less);
    }
}

/// The key is that of one of the first `n` entries.
spec fn seen_key(entries: Seq<(&u128, &Incident)>, n: int, key: u128) -> bool {
    exists|k: int| 0 <= k < n && *(#[trigger] entries[k]).0 == key
}

/// The keys of the entries of a map.
spec fn entry_keys(entries: Seq<(&u128, &Incident)>) -> Seq<u128> {
    entries.map_values(|entry: (&u128, &Incident)| *entry.0)
}

/// Among the first `i + 1` alerts are the first `i` and the next.
proof fn lemma_holds_next(alerts: Seq<AlertView>, i: int)
    requires
        0 <= i < alerts.len(),
    ensures
        forall|who: (Seq<char>, Seq<char>)| #[trigger]
            holds_alert(alerts.take(i + 1), who) <==> holds_alert(alerts.take(i), who)
                || alerts[i].identity() == who,
{
    assert forall|who: (Seq<char>, Seq<char>)| #[trigger]
        holds_alert(alerts.take(i + 1), who) <==> holds_alert(alerts.take(i), who)
            || alerts[i].identity() == who by {
        let next = alerts.take(i + 1);
        let done = alerts.take(i);
        if holds_alert(next, who) {
            let j = choose|j: int| 0 <= j < next.len() && (#[trigger] next[j]).identity() == who;
            if j < i {
                assert(done[j].identity() == who);
            }
        }
        if holds_alert(done, who) {
            let j = choose|j: int| 0 <= j < done.len() && (#[trigger] done[j]).identity() == who;
            assert(next[j].identity() == who);
        }
        if alerts[i].identity() == who {
            assert(next[i].identity() == who);
        }
    }
}

/// Expiring no incident changes nothing.
proof fn lemma_expired_none(store: StoreView, now: Timestamp)
    ensures
        store.expired(Set::empty(), now) == store,
{
    assert(store.expired(Set::empty(), now) =~= store);
}

/// Closing one more idle incident is expiring one more.
proof fn lemma_expired_one_more(
    store: StoreView,
    ids: Set<IncidentId>,
    id: IncidentId,
    now: Timestamp,
)
    requires
        store.incidents.contains_key(id),
    ensures
        store.expired(ids, now).closed(id, CloseReason::IdleTtl, now) == store.expired(
            ids.insert(id),
            now,
        ),
{
    let closed = store.expired(ids, now).closed(id, CloseReason::IdleTtl, now);
    let expired = store.expired(ids.insert(id), now);
    assert(closed.incidents =~= expired.incidents);
    assert forall|who: (Seq<char>, Seq<char>)| closed.by_alert.contains_key(
        who,
    ) == expired.by_alert.contains_key(who) by {
        assert(ids.insert(id).contains(id));
        assert(forall|other: IncidentId| #[trigger]
            ids.contains(other) ==> ids.insert(id).contains(other));
    }
    assert(closed.by_alert =~= expired.by_alert);
    assert forall|key: KeyView| closed.by_key.contains_key(key) == expired.by_key.contains_key(
        key,
    ) by {
        assert(ids.insert(id).contains(id));
        assert(forall|other: IncidentId| #[trigger]
            ids.contains(other) ==> ids.insert(id).contains(other));
    }
    assert(closed.by_key =~= expired.by_key);
}

/// The position of the first alert with this identity.
fn find_alert(alerts: &Vec<Alert>, source: &str, alert_id: &str) -> (position: Option<usize>)
    ensures
        match position {
            Some(i) => is_first(alert_views(alerts@), (source@, alert_id@), i as int),
            None => !exists|i: int| is_first(alert_views(alerts@), (source@, alert_id@), i),
        },
{
    let mut i: usize = 0;
    while i < alerts.len()
        invariant
            i <= alerts.len(),
            forall|j: int|
                0 <= j < i ==> (#[trigger] alert_views(alerts@)[j]).identity() != (
                    source@,
                    alert_id@,
                ),
        decreases alerts.len() - i,
    {
        let alert: &Alert = &alerts[i];
        assert(alert_views(alerts@)[i as int] == alert@);
        if same_text(alert.source, source) && same_text(alert.source_alert_id.as_str(), alert_id) {
            return Some(i);
        }
        i = i + 1;
    }
    None
}

/// Sets the status of the alert at `i`.
fn set_status(alerts: &mut Vec<Alert>, i: usize, status: AlertStatus)
    requires
        i < old(alerts).len(),
    ensures
        alert_views(final(alerts)@) == alert_views(old(alerts)@).update(
            i as int,
            AlertView { status, ..alert_views(old(alerts)@)[i as int] },
        ),
{
    let ghost before = alert_views(alerts@);
    alerts[i].status = status;
    assert(alert_views(alerts@) =~= before.update(
        i as int,
        AlertView { status, ..before[i as int] },
    ));
}

} // verus!
