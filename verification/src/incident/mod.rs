//! Incidents: what alerts are folded into.
use crate::alert::{Alert, AlertView};
use crate::text_map::Labels;
use crate::text::same_text;
use crate::time::Timestamp;
use crate::triage::{TriageResult, TriageView};
use index::IndexKey;
use vstd::prelude::*;

pub mod dedupe;
pub mod index;
pub mod laws;
pub mod store;
pub mod worker;
pub use dedupe::{decide, decide_with_id, Decision};
pub use store::{InMemoryStore, IncidentStore};
pub use worker::{TriageRequest, Triaged, TRIAGED_CAPACITY};

verus! {

/// The id of an incident: the 128 bits of a UUID. Ids order as these bits do.
#[derive(Clone, Copy, PartialEq, Eq, Structural, PartialOrd, Ord, Hash, Debug)]
pub struct IncidentId(pub u128);

/// The bits are those of a version 7 UUID of the RFC 9562 variant.
pub open spec fn is_version_7(bits: u128) -> bool {
    (bits >> 76) & 0xf == 7 && (bits >> 62) & 0x3 == 2
}

/// Calls `uuid::Uuid::now_v7`. Claimed: what comes out is a version 7 UUID. Its other bits come
/// from the clock and from chance.
#[verifier::external_body]
fn fresh_bits() -> (bits: u128)
    ensures
        is_version_7(bits),
{
    uuid::Uuid::now_v7().as_u128()
}

/// A hexadecimal digit, in lower case.
pub open spec fn hex_char(digit: nat) -> char {
    if digit < 10 {
        ('0' as u32 + digit) as char
    } else {
        ('a' as u32 + (digit - 10)) as char
    }
}

/// The last `count` hexadecimal digits of `n`, most significant first.
pub open spec fn hex_digits(n: nat, count: nat) -> Seq<char>
    decreases count,
{
    if count == 0 {
        Seq::empty()
    } else {
        hex_digits(n / 16, (count - 1) as nat).push(hex_char(n % 16))
    }
}

/// The usual text of a UUID: its 32 digits in groups of 8, 4, 4, 4 and 12, with hyphens between.
pub open spec fn uuid_text(bits: u128) -> Seq<char> {
    let digits = hex_digits(bits as nat, 32);
    digits.subrange(0, 8) + seq!['-'] + digits.subrange(8, 12) + seq!['-'] + digits.subrange(12, 16)
        + seq!['-'] + digits.subrange(16, 20) + seq!['-'] + digits.subrange(20, 32)
}

/// Calls `uuid::Uuid::from_u128` and the `Display` of `uuid::Uuid`. Claimed: the text is the
/// hyphenated one in lower case.
#[verifier::external_body]
fn print_uuid(bits: u128) -> (text: String)
    ensures
        text@ == uuid_text(bits),
{
    uuid::Uuid::from_u128(bits).to_string()
}

impl IncidentId {
    /// A fresh id.
    #[must_use]
    pub fn new() -> (id: Self)
        ensures
            is_version_7(id.0),
    {
        IncidentId(fresh_bits())
    }

    /// The id as text.
    pub fn text(self) -> (text: String)
        ensures
            text@ == uuid_text(self.0),
    {
        print_uuid(self.0)
    }
}

impl Default for IncidentId {
    fn default() -> (id: Self)
        ensures
            is_version_7(id.0),
    {
        IncidentId::new()
    }
}

/// What alerts of one incident have in common: their source and their labels.
#[derive(Debug)]
pub struct DedupeKey {
    source: &'static str,
    labels: Labels,
}

/// What a [`DedupeKey`] holds.
pub struct KeyView {
    pub source: Seq<char>,
    pub labels: Map<Seq<char>, Seq<char>>,
}

impl View for DedupeKey {
    type V = KeyView;

    closed spec fn view(&self) -> KeyView {
        KeyView { source: self.source@, labels: self.labels@ }
    }
}

/// The dedupe key of an alert. Nothing but its source and its labels goes into it.
pub open spec fn key_of(alert: AlertView) -> KeyView {
    KeyView { source: alert.source, labels: alert.labels }
}

impl DedupeKey {
    /// The dedupe key of `alert`.
    #[must_use]
    pub fn of(alert: &Alert) -> (key: Self)
        ensures
            key@ == key_of(alert@),
    {
        DedupeKey { source: alert.source, labels: alert.labels.clone() }
    }

    /// Whether the two keys are the same.
    pub fn same(&self, other: &DedupeKey) -> (same: bool)
        ensures
            same == (self@ == other@),
    {
        same_text(self.source, other.source) && self.labels.same(&other.labels)
    }
}

impl Clone for DedupeKey {
    fn clone(&self) -> (copy: DedupeKey)
        ensures
            copy@ == self@,
    {
        DedupeKey { source: self.source, labels: self.labels.clone() }
    }
}

impl IndexKey for DedupeKey {
    fn same_key(&self, other: &Self) -> (same: bool) {
        self.same(other)
    }
}

/// Whether an incident is still open.
#[derive(Clone, Copy, PartialEq, Eq, Structural, Debug)]
pub enum IncidentState {
    Open,
    Closed { reason: CloseReason, closed_at: Timestamp },
}

/// Why an incident was closed.
#[derive(Clone, Copy, PartialEq, Eq, Structural, Debug)]
pub enum CloseReason {
    Resolved,
    IdleTtl,
}

impl CloseReason {
    /// The name of the reason.
    pub open spec fn text(self) -> Seq<char> {
        match self {
            CloseReason::Resolved => "resolved"@,
            CloseReason::IdleTtl => "idle_ttl"@,
        }
    }

    /// The name of the reason.
    #[must_use]
    pub fn as_str(self) -> (text: &'static str)
        ensures
            text@ == self.text(),
    {
        match self {
            CloseReason::Resolved => "resolved",
            CloseReason::IdleTtl => "idle_ttl",
        }
    }
}

/// One incident and the alerts that it gathers.
#[derive(Debug)]
pub struct Incident {
    pub id: IncidentId,
    pub state: IncidentState,
    pub key: DedupeKey,
    pub alerts: Vec<Alert>,
    pub triage: Option<TriageResult>,
    pub opened_at: Timestamp,
    pub last_activity_at: Timestamp,
}

/// What an [`Incident`] holds.
pub struct IncidentView {
    pub id: IncidentId,
    pub state: IncidentState,
    pub key: KeyView,
    pub alerts: Seq<AlertView>,
    pub triage: Option<TriageView>,
    pub opened_at: Timestamp,
    pub last_activity_at: Timestamp,
}

/// What a list of alerts holds.
pub open spec fn alert_views(alerts: Seq<Alert>) -> Seq<AlertView> {
    Seq::new(alerts.len(), |i: int| alerts[i]@)
}

/// What a triage result that may be missing holds.
pub open spec fn triage_view(triage: Option<TriageResult>) -> Option<TriageView> {
    match triage {
        Some(t) => Some(t@),
        None => None,
    }
}

impl View for Incident {
    type V = IncidentView;

    open spec fn view(&self) -> IncidentView {
        IncidentView {
            id: self.id,
            state: self.state,
            key: self.key@,
            alerts: alert_views(self.alerts@),
            triage: triage_view(self.triage),
            opened_at: self.opened_at,
            last_activity_at: self.last_activity_at,
        }
    }
}

/// A fresh open incident that holds its first alert.
pub open spec fn opened(
    id: IncidentId,
    key: KeyView,
    alert: AlertView,
    now: Timestamp,
) -> IncidentView {
    IncidentView {
        id,
        state: IncidentState::Open,
        key,
        alerts: seq![alert],
        triage: None,
        opened_at: now,
        last_activity_at: now,
    }
}

impl Incident {
    /// A fresh open incident holding its first alert.
    #[must_use]
    pub fn open(id: IncidentId, key: DedupeKey, alert: Alert, now: Timestamp) -> (incident: Self)
        ensures
            incident@ == opened(id, key@, alert@, now),
    {
        let incident = Incident {
            id,
            state: IncidentState::Open,
            key,
            alerts: vec![alert],
            triage: None,
            opened_at: now,
            last_activity_at: now,
        };
        assert(incident@.alerts =~= seq![alert@]);
        incident
    }
}

} // verus!
