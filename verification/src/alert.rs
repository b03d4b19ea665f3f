//! Alerts in the form shared by every source.
use crate::text_map::Labels;
use crate::time::Timestamp;
use vstd::prelude::*;

verus! {

/// A normalized alert from an alert source.
#[derive(Debug)]
pub struct Alert {
    pub source: &'static str,
    pub source_alert_id: String,
    pub labels: Labels,
    pub annotations: Labels,
    pub starts_at: Timestamp,
    pub status: AlertStatus,
    /// What the source sent for this alert, as compact JSON.
    pub raw_payload: String,
}

/// What an [`Alert`] holds.
pub struct AlertView {
    pub source: Seq<char>,
    pub source_alert_id: Seq<char>,
    pub labels: Map<Seq<char>, Seq<char>>,
    pub annotations: Map<Seq<char>, Seq<char>>,
    pub starts_at: Timestamp,
    pub status: AlertStatus,
    pub raw_payload: Seq<char>,
}

impl View for Alert {
    type V = AlertView;

    open spec fn view(&self) -> AlertView {
        AlertView {
            source: self.source@,
            source_alert_id: self.source_alert_id@,
            labels: self.labels@,
            annotations: self.annotations@,
            starts_at: self.starts_at,
            status: self.status,
            raw_payload: self.raw_payload@,
        }
    }
}

impl AlertView {
    /// What tells one alert from another: its source and its id there.
    pub open spec fn identity(self) -> (Seq<char>, Seq<char>) {
        (self.source, self.source_alert_id)
    }
}

impl Clone for Alert {
    fn clone(&self) -> (copy: Alert)
        ensures
            copy@ == self@,
    {
        Alert {
            source: self.source,
            source_alert_id: self.source_alert_id.clone(),
            labels: self.labels.clone(),
            annotations: self.annotations.clone(),
            starts_at: self.starts_at,
            status: self.status,
            raw_payload: self.raw_payload.clone(),
        }
    }
}

/// The lifecycle state of an [`Alert`].
#[derive(Clone, Copy, PartialEq, Eq, Structural, Debug)]
pub enum AlertStatus {
    Firing,
    Acknowledged,
    Resolved,
}

impl AlertStatus {
    /// The lowercase wire form.
    pub open spec fn text(self) -> Seq<char> {
        match self {
            AlertStatus::Firing => "firing"@,
            AlertStatus::Acknowledged => "acknowledged"@,
            AlertStatus::Resolved => "resolved"@,
        }
    }

    /// The lowercase wire form.
    #[must_use]
    pub fn as_str(self) -> (text: &'static str)
        ensures
            text@ == self.text(),
    {
        match self {
            AlertStatus::Firing => "firing",
            AlertStatus::Acknowledged => "acknowledged",
            AlertStatus::Resolved => "resolved",
        }
    }
}

/// An error from parsing a webhook body.
#[derive(Debug)]
pub struct ParseError {
    pub message: String,
}

impl AlertView {
    /// Two alerts are one and the same exactly if they have the same source and the same id there,
    /// whatever else they say.
    pub proof fn law_identity_is_source_and_id(self, other: AlertView)
        ensures
            self.identity() == other.identity() <==> self.source == other.source
                && self.source_alert_id == other.source_alert_id,
    {
    }
}

impl AlertStatus {
    /// The three states have different wire forms.
    pub proof fn law_wire_forms_differ(self, other: AlertStatus)
        ensures
            self.text() == other.text() <==> self == other,
    {
        reveal_strlit("firing");
        reveal_strlit("acknowledged");
        reveal_strlit("resolved");
        assert("firing"@[0] == 'f');
        assert("acknowledged"@[0] == 'a');
        assert("resolved"@[0] == 'r');
    }
}

} // verus!
