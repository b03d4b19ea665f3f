//! How a webhook delivery is answered.
use crate::alert::{Alert, ParseError};
use crate::config::WebhookConfig;
use crate::grafana::alerts_view;
use crate::incident::alert_views;
use crate::text::{
    is_longest_prefix, law_longest_prefix_fills_the_limit, lemma_encode_concat, same_text,
    truncate_utf8, utf8_text,
};
use vstd::prelude::*;
use vstd::utf8::*;

verus! {

/// What a health check is answered.
pub const HEALTH: &'static str = "ok";

/// The sources that deliver alerts.
#[derive(Clone, Copy, PartialEq, Eq, Structural, Debug)]
pub enum Source {
    Grafana,
    Pagerduty,
}

impl Source {
    /// The name of the source in webhook URLs.
    pub open spec fn text(self) -> Seq<char> {
        match self {
            Source::Grafana => "grafana"@,
            Source::Pagerduty => "pagerduty"@,
        }
    }
}

/// The sources that are served.
#[derive(Clone, Copy, Debug)]
pub struct Registry {
    grafana: bool,
    pagerduty: bool,
}

impl Registry {
    /// The source is served.
    pub closed spec fn serves(self, source: Source) -> bool {
        match source {
            Source::Grafana => self.grafana,
            Source::Pagerduty => self.pagerduty,
        }
    }

    /// A source of this name is served.
    pub open spec fn has(self, name: Seq<char>) -> bool {
        exists|source: Source| #[trigger] self.serves(source) && source.text() == name
    }

    /// The source of this name, if it is served.
    pub fn get(&self, name: &str) -> (source: Option<Source>)
        ensures
            match source {
                Some(source) => self.serves(source) && source.text() == name@,
                None => !self.has(name@),
            },
    {
        if self.grafana && same_text(name, "grafana") {
            Some(Source::Grafana)
        } else if self.pagerduty && same_text(name, "pagerduty") {
            Some(Source::Pagerduty)
        } else {
            None
        }
    }

    /// Whether a source of this name is served.
    pub fn contains_key(&self, name: &str) -> (served: bool)
        ensures
            served == self.has(name@),
    {
        let source: Option<Source> = self.get(name);
        source.is_some()
    }

    /// Whether no source is served.
    pub fn is_empty(&self) -> (empty: bool)
        ensures
            empty == forall|source: Source| !#[trigger] self.serves(source),
    {
        assert(self.grafana == self.serves(Source::Grafana));
        assert(self.pagerduty == self.serves(Source::Pagerduty));
        !self.grafana && !self.pagerduty
    }
}

/// Builds the registry from the enabled sources.
pub fn registry(config: &WebhookConfig) -> (registry: Registry)
    ensures
        registry.serves(Source::Grafana) == config.grafana.enabled,
        registry.serves(Source::Pagerduty) == config.pagerduty.enabled,
{
    Registry { grafana: config.grafana.enabled, pagerduty: config.pagerduty.enabled }
}

/// What the log shows of a body.
pub enum LoggedBody<'a> {
    /// As much of it as may be shown, and whether that is less than all of it.
    Text { body: &'a str, truncated: bool },
    NotText,
}

/// What the log shows of a body: of text the longest prefix within the limit, of anything else
/// nothing.
pub fn logged_body(bytes: &[u8], limit_bytes: usize) -> (logged: LoggedBody<'_>)
    ensures
        match logged {
            LoggedBody::Text { body, truncated } => {
                &&& valid_utf8(bytes@)
                &&& is_longest_prefix(body@, decode_utf8(bytes@), limit_bytes as int)
                &&& truncated == (encode_utf8(body@).len() < bytes@.len())
            },
            LoggedBody::NotText => !valid_utf8(bytes@),
        },
{
    match utf8_text(bytes) {
        Ok(text) => {
            let body: &str = truncate_utf8(text, limit_bytes);
            proof {
                encode_utf8_decode_utf8(text@);
            }
            LoggedBody::Text { body, truncated: body.as_bytes().len() < text.as_bytes().len() }
        },
        Err(fault) => {
            assert(bytes@.take(bytes@.len() as int) =~= bytes@);
            LoggedBody::NotText
        },
    }
}

/// What a delivery is answered.
#[derive(Debug)]
pub enum Reply {
    /// The alerts are queued.
    Accepted,
    /// No such source is served.
    NotFound,
    /// The body is no delivery; the message tells why.
    BadRequest { message: String },
    /// The queue has no room for all of the alerts.
    Unavailable,
}

impl Reply {
    /// The HTTP status.
    pub open spec fn spec_status(self) -> u16 {
        match self {
            Reply::Accepted => 202,
            Reply::NotFound => 404,
            Reply::BadRequest { .. } => 400,
            Reply::Unavailable => 503,
        }
    }

    /// The HTTP status.
    pub fn status(&self) -> (status: u16)
        ensures
            status == self.spec_status(),
    {
        match self {
            Reply::Accepted => 202,
            Reply::NotFound => 404,
            Reply::BadRequest { .. } => 400,
            Reply::Unavailable => 503,
        }
    }
}

/// What is done with a delivery: what it is answered, and which alerts are queued, in order.
#[derive(Debug)]
pub struct Delivery {
    pub reply: Reply,
    pub queued: Vec<Alert>,
}

/// How far a delivery got before it was known whether the queue has room.
pub enum Intake {
    /// It is answered right away; nothing is queued.
    Refused(Reply),
    /// Its alerts are to be queued, all of them or none.
    Offered(Vec<Alert>),
}

/// Takes a delivery in. `parsed` is what the source's adapter made of the body.
pub fn take_in(source: Option<Source>, parsed: Result<Vec<Alert>, ParseError>) -> (intake: Intake)
    ensures
        match (source, parsed) {
            (None, _) => intake matches Intake::Refused(reply) && reply is NotFound,
            (Some(_), Err(error)) => intake matches Intake::Refused(reply) && (
            reply matches Reply::BadRequest { message } && message@ == error.message@),
            (Some(_), Ok(alerts)) => intake == Intake::Offered(alerts),
        },
{
    match source {
        None => Intake::Refused(Reply::NotFound),
        Some(_) => match parsed {
            Ok(alerts) => Intake::Offered(alerts),
            Err(error) => Intake::Refused(Reply::BadRequest { message: error.message }),
        },
    }
}

/// Settles a delivery. `room` tells whether the queue took a reservation for every alert that was
/// offered.
pub fn settle(intake: Intake, room: bool) -> (delivery: Delivery)
    ensures
        match intake {
            Intake::Refused(reply) => delivery.reply == reply && delivery.queued@.len() == 0,
            Intake::Offered(alerts) => if room {
                delivery.reply is Accepted && delivery.queued == alerts
            } else {
                delivery.reply is Unavailable && delivery.queued@.len() == 0
            },
        },
{
    match intake {
        Intake::Refused(reply) => Delivery { reply, queued: Vec::new() },
        Intake::Offered(alerts) => {
            if room {
                Delivery { reply: Reply::Accepted, queued: alerts }
            } else {
                Delivery { reply: Reply::Unavailable, queued: Vec::new() }
            }
        },
    }
}

/// Answers a delivery to the source of this name. A source that is not served is not found,
/// whatever the body; a body that is no delivery is a bad request; alerts are queued all together
/// or, without room for all of them, not at all.
pub fn answer(
    registry: &Registry,
    source: &str,
    parsed: Result<Vec<Alert>, ParseError>,
    room: bool,
) -> (delivery: Delivery)
    ensures
        if !registry.has(source@) {
            delivery.reply.spec_status() == 404 && delivery.queued@.len() == 0
        } else {
            match alerts_view(parsed) {
                Err(message) => delivery.reply.spec_status() == 400 && (
                delivery.reply matches Reply::BadRequest { message: m } && m@ == message)
                    && delivery.queued@.len() == 0,
                Ok(alerts) => if room {
                    delivery.reply.spec_status() == 202 && alert_views(delivery.queued@) == alerts
                } else {
                    delivery.reply.spec_status() == 503 && delivery.queued@.len() == 0
                },
            }
        },
{
    let found: Option<Source> = registry.get(source);
    settle(take_in(found, parsed), room)
}

impl Registry {
    /// A source is served under its own name exactly if it is served, and no other name is served.
    pub proof fn law_sources_are_served_by_name(self, name: Seq<char>)
        ensures
            self.has("grafana"@) <==> self.serves(Source::Grafana),
            self.has("pagerduty"@) <==> self.serves(Source::Pagerduty),
            name != "grafana"@ && name != "pagerduty"@ ==> !self.has(name),
    {
        reveal_strlit("grafana");
        reveal_strlit("pagerduty");
        assert("grafana"@.len() != "pagerduty"@.len());
        if self.serves(Source::Grafana) {
            assert(Source::Grafana.text() == "grafana"@);
        }
        if self.serves(Source::Pagerduty) {
            assert(Source::Pagerduty.text() == "pagerduty"@);
        }
    }
}

impl Reply {
    /// Each kind of answer has a status of its own, and only that of accepted alerts is a success:
    /// a request that cannot be right is the client's fault, and a full queue the server's.
    pub proof fn law_status_tells_whose_fault_it_is(self, other: Reply)
        ensures
            200 <= self.spec_status() < 300 <==> self is Accepted,
            400 <= self.spec_status() < 500 <==> self is NotFound || self is BadRequest,
            500 <= self.spec_status() < 600 <==> self is Unavailable,
            self.spec_status() == other.spec_status() <==> (self is Accepted
                <==> other is Accepted) && (self is NotFound <==> other is NotFound) && (
            self is BadRequest <==> other is BadRequest) && (self is Unavailable
                <==> other is Unavailable),
    {
    }
}

/// A delivery is queued all together or not at all: exactly if its source is served, its body is a
/// delivery and there is room for every alert, and then it is answered as accepted.
pub proof fn law_delivery_is_queued_whole_or_not_at_all(
    registry: Registry,
    source: &str,
    parsed: Result<Vec<Alert>, ParseError>,
    room: bool,
    delivery: Delivery,
)
    requires
        call_ensures(answer, (&registry, source, parsed, room), delivery),
    ensures
        delivery.reply is Accepted <==> registry.has(source@) && parsed is Ok && room,
        delivery.reply is NotFound <==> !registry.has(source@),
        delivery.reply is BadRequest <==> registry.has(source@) && parsed is Err,
        !(delivery.reply is Accepted) ==> delivery.queued@.len() == 0,
        delivery.reply is Accepted ==> (parsed matches Ok(alerts) && delivery.queued@.len()
            == alerts@.len()),
        delivery.reply is Accepted ==> forall|i: int|
            0 <= i < delivery.queued@.len() ==> (#[trigger] delivery.queued@[i])@
                == parsed->Ok_0@[i]@,
{
    if delivery.reply is Accepted {
        let given = alert_views(parsed->Ok_0@);
        let queued = alert_views(delivery.queued@);
        assert(given.len() == queued.len());
        assert forall|i: int| 0 <= i < delivery.queued@.len() implies (
        #[trigger] delivery.queued@[i])@ == parsed->Ok_0@[i]@ by {
            assert(queued[i] == given[i]);
        }
    }
}

/// What the log shows of a body is its beginning, as text: all of it where it is within the limit,
/// and otherwise as many whole characters as the limit holds. Whether that is less than all of it is
/// told.
pub proof fn law_log_shows_the_beginning_of_a_body(
    bytes: &[u8],
    limit_bytes: usize,
    body: &str,
    truncated: bool,
)
    requires
        call_ensures(logged_body, (bytes, limit_bytes), LoggedBody::Text { body, truncated }),
    ensures
        encode_utf8(body@).len() <= limit_bytes,
        encode_utf8(body@).is_prefix_of(bytes@),
        truncated <==> encode_utf8(body@) != bytes@,
        bytes@.len() <= limit_bytes ==> !truncated,
{
    let full = decode_utf8(bytes@);
    decode_utf8_encode_utf8(bytes@);
    law_longest_prefix_fills_the_limit(body@, full, limit_bytes as int);
    let rest = full.skip(body@.len() as int);
    assert(full =~= body@ + rest);
    lemma_encode_concat(body@, rest);
    let shown = encode_utf8(body@);
    assert(shown =~= bytes@.take(shown.len() as int));
    if shown.len() == bytes@.len() {
        assert(bytes@.take(bytes@.len() as int) =~= bytes@);
    }
}

} // verus!
