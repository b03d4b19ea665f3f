//! Grafana's webhooks.
use crate::alert::{Alert, AlertStatus, AlertView, ParseError};
use crate::json::{array_elements, array_member, elements_view};
use crate::text::texts;
use crate::text_map::Labels;
use crate::time::Timestamp;
use vstd::prelude::*;

verus! {

/// The Grafana alert source.
pub struct Grafana;

/// Statuses Grafana is known to send.
#[derive(Clone, Copy, PartialEq, Eq, Structural, Debug)]
pub enum GrafanaStatus {
    Firing,
    Resolved,
}

impl GrafanaStatus {
    /// The status of an alert.
    pub open spec fn spec_status(self) -> AlertStatus {
        match self {
            GrafanaStatus::Firing => AlertStatus::Firing,
            GrafanaStatus::Resolved => AlertStatus::Resolved,
        }
    }

    /// The status of an alert.
    pub fn status(self) -> (status: AlertStatus)
        ensures
            status == self.spec_status(),
    {
        match self {
            GrafanaStatus::Firing => AlertStatus::Firing,
            GrafanaStatus::Resolved => AlertStatus::Resolved,
        }
    }
}

/// One alert in a delivery from Grafana.
#[derive(Debug)]
pub struct GrafanaAlert {
    pub status: GrafanaStatus,
    pub labels: Labels,
    pub annotations: Labels,
    pub starts_at: Timestamp,
    pub fingerprint: String,
}

/// One delivery from Grafana.
#[derive(Debug)]
pub struct GrafanaWebhook {
    pub alerts: Vec<GrafanaAlert>,
}

/// The alert that an entry of a delivery stands for.
pub open spec fn normalized(alert: GrafanaAlert, raw_payload: Seq<char>) -> AlertView {
    AlertView {
        source: "grafana"@,
        source_alert_id: alert.fingerprint@,
        labels: alert.labels@,
        annotations: alert.annotations@,
        starts_at: alert.starts_at,
        status: alert.status.spec_status(),
        raw_payload,
    }
}

/// The alerts of a delivery, each with its own slice of the body. Where the two lists differ in
/// length, the shorter one counts.
pub open spec fn zipped(alerts: Seq<GrafanaAlert>, raw: Seq<Seq<char>>) -> Seq<AlertView> {
    Seq::new(
        if alerts.len() < raw.len() {
            alerts.len()
        } else {
            raw.len()
        },
        |i: int| normalized(alerts[i], raw[i]),
    )
}

/// The slices of the body that are paired with the alerts: none where the body has no list of them.
pub open spec fn raw_payloads(elements: Option<Seq<Seq<char>>>) -> Seq<Seq<char>> {
    match elements {
        Some(raw) => raw,
        None => Seq::empty(),
    }
}

/// What the outcome of a parse holds.
pub open spec fn alerts_view(alerts: Result<Vec<Alert>, ParseError>) -> Result<
    Seq<AlertView>,
    Seq<char>,
> {
    match alerts {
        Ok(list) => Ok(crate::incident::alert_views(list@)),
        Err(error) => Err(error.message@),
    }
}

impl Grafana {
    /// Returns the source name used in webhook URLs.
    pub fn name(&self) -> (name: &'static str)
        ensures
            name@ == "grafana"@,
    {
        "grafana"
    }

    /// Turns a delivery into alerts. `webhook` is what `body` says, or why it is no delivery; the
    /// raw payload of each alert is its own slice of `body`.
    pub fn parse(
        &self,
        webhook: Result<GrafanaWebhook, ParseError>,
        body: &[u8],
    ) -> (alerts: Result<Vec<Alert>, ParseError>)
        ensures
            alerts_view(alerts) == match webhook {
                Err(error) => Err(error.message@),
                Ok(delivery) => match array_member(body@, "alerts"@) {
                    Err(error) => Err(error),
                    Ok(raw) => Ok(zipped(delivery.alerts@, raw_payloads(raw))),
                },
            },
    {
        match webhook {
            Err(error) => Err(error),
            Ok(delivery) => self.normalize(delivery, array_elements(body, "alerts")),
        }
    }

    /// Pairs the alerts of a delivery with their slices of the body, or tells why there are none.
    pub fn normalize(
        &self,
        webhook: GrafanaWebhook,
        raw_alerts: Result<Option<Vec<String>>, String>,
    ) -> (alerts: Result<Vec<Alert>, ParseError>)
        ensures
            alerts_view(alerts) == match elements_view(raw_alerts) {
                Err(error) => Err(error),
                Ok(raw) => Ok(zipped(webhook.alerts@, raw_payloads(raw))),
            },
    {
        let raw: Vec<String> = match raw_alerts {
            Ok(Some(raw)) => raw,
            Ok(None) => {
                let none: Vec<String> = Vec::new();
                assert(texts(none@) =~= Seq::empty());
                none
            },
            Err(message) => return Err(ParseError { message }),
        };
        let ghost expected = zipped(webhook.alerts@, texts(raw@));
        let mut alerts: Vec<Alert> = Vec::new();
        let mut i: usize = 0;
        while i < webhook.alerts.len() && i < raw.len()
            invariant
                i <= webhook.alerts.len(),
                i <= raw.len(),
                expected == zipped(webhook.alerts@, texts(raw@)),
                alerts.len() == i,
                forall|j: int| 0 <= j < i ==> (#[trigger] alerts[j])@ == expected[j],
            decreases webhook.alerts.len() - i,
        {
            let entry: &GrafanaAlert = &webhook.alerts[i];
            alerts.push(
                Alert {
                    source: self.name(),
                    source_alert_id: entry.fingerprint.clone(),
                    labels: entry.labels.clone(),
                    annotations: entry.annotations.clone(),
                    starts_at: entry.starts_at,
                    status: entry.status.status(),
                    raw_payload: raw[i].clone(),
                },
            );
            assert(texts(raw@)[i as int] == raw[i as int]@);
            i = i + 1;
        }
        assert(crate::incident::alert_views(alerts@) =~= expected);
        Ok(alerts)
    }
}

/// Each alert of a delivery is that of its own entry: of the source `grafana`, with the fingerprint
/// as its id whatever its status, with the labels, the annotations and the start of the entry, and
/// with the slice of the body at the same place as its payload.
pub proof fn law_each_alert_is_that_of_its_entry(
    alerts: Seq<GrafanaAlert>,
    raw: Seq<Seq<char>>,
    i: int,
)
    requires
        0 <= i < alerts.len(),
        i < raw.len(),
    ensures
        ({
            let found = zipped(alerts, raw);
            &&& found.len() <= alerts.len() && found.len() <= raw.len()
            &&& found.len() == alerts.len() || found.len() == raw.len()
            &&& found[i].source == "grafana"@
            &&& found[i].source_alert_id == alerts[i].fingerprint@
            &&& found[i].labels == alerts[i].labels@
            &&& found[i].annotations == alerts[i].annotations@
            &&& found[i].starts_at == alerts[i].starts_at
            &&& found[i].status == AlertStatus::Resolved <==> alerts[i].status
                == GrafanaStatus::Resolved
            &&& found[i].status == AlertStatus::Firing <==> alerts[i].status
                == GrafanaStatus::Firing
            &&& found[i].raw_payload == raw[i]
        }),
{
}

/// Entries with the same fingerprint are one alert, in whatever deliveries they come and whatever
/// their statuses; entries with different fingerprints are different ones.
pub proof fn law_fingerprint_is_the_identity(
    alerts: Seq<GrafanaAlert>,
    raw: Seq<Seq<char>>,
    i: int,
    others: Seq<GrafanaAlert>,
    other_raw: Seq<Seq<char>>,
    j: int,
)
    requires
        0 <= i < alerts.len(),
        i < raw.len(),
        0 <= j < others.len(),
        j < other_raw.len(),
    ensures
        zipped(alerts, raw)[i].identity() == zipped(others, other_raw)[j].identity() <==> alerts[
            i
        ].fingerprint@ == others[j].fingerprint@,
{
}

/// A body without a list of alerts gives none.
pub proof fn law_no_list_gives_no_alerts(alerts: Seq<GrafanaAlert>)
    ensures
        zipped(alerts, raw_payloads(None)).len() == 0,
{
}

/// What a delivery is parsed to are the alerts of its entries, in order, each with the fingerprint of
/// its entry as its id and its own slice of the body as its payload.
pub proof fn law_delivery_gives_an_alert_for_each_entry(
    adapter: Grafana,
    webhook: GrafanaWebhook,
    raw: Vec<String>,
    alerts: Vec<Alert>,
    i: int,
)
    requires
        call_ensures(
            Grafana::normalize,
            (&adapter, webhook, Ok::<Option<Vec<String>>, String>(Some(raw))),
            Ok::<Vec<Alert>, ParseError>(alerts),
        ),
        webhook.alerts@.len() == raw@.len(),
        0 <= i < raw@.len(),
    ensures
        alerts@.len() == raw@.len(),
        alerts@[i].source@ == "grafana"@,
        alerts@[i].source_alert_id@ == webhook.alerts@[i].fingerprint@,
        alerts@[i].labels@ == webhook.alerts@[i].labels@,
        alerts@[i].raw_payload@ == raw@[i]@,
        alerts@[i].status == AlertStatus::Resolved <==> webhook.alerts@[i].status
            == GrafanaStatus::Resolved,
{
    let views = crate::incident::alert_views(alerts@);
    assert(views.len() == alerts@.len());
    assert(texts(raw@)[i] == raw@[i]@);
    law_each_alert_is_that_of_its_entry(webhook.alerts@, texts(raw@), i);
    assert(views[i] == alerts@[i]@);
}

} // verus!
