//! Triage: what a language model makes of a single alert.
use crate::alert::{Alert, AlertView};
use crate::text_map::{law_sorted_pairs_are_the_entries, sorted_pairs, Labels};
use vstd::prelude::*;
use vstd::string::*;

pub mod triager;
pub mod worker;
pub use triager::{BuildError, ErrorClass, TriageError, Triager};

verus! {

/// What the model is told about its task.
pub const TRIAGE_PREAMBLE: &'static str = r#"You triage alerts for an on-call engineer.

Given one alert, produce:
- severity: P1 (page immediately, user-facing outage) … P4 (informational).
  Use "Unknown" when the alert genuinely does not tell you. The alert's own
  severity hints (labels, priority fields) are advisory context from the
  source — weigh them against the content; do not merely echo them.
- service: the affected service's name, exactly as the alert names it.
  Use null when no service is identifiable. Never guess.
- tags: short lowercase keywords an engineer would filter by (subsystem,
  environment, failure kind). Empty list is fine.
- summary: one plain sentence stating what is wrong.
"#;

/// One line for each pair, indented, in order.
pub open spec fn pair_lines(pairs: Seq<(Seq<char>, Seq<char>)>) -> Seq<char>
    decreases pairs.len(),
{
    if pairs.len() == 0 {
        Seq::empty()
    } else {
        pair_lines(pairs.drop_last()) + "  "@ + pairs.last().0 + ": "@ + pairs.last().1 + "\n"@
    }
}

/// A heading and the lines under it; nothing at all where there are no pairs.
pub open spec fn section_text(name: Seq<char>, entries: Map<Seq<char>, Seq<char>>) -> Seq<char> {
    let pairs = sorted_pairs(entries);
    if pairs.len() == 0 {
        Seq::empty()
    } else {
        name + ":\n"@ + pair_lines(pairs)
    }
}

/// The prompt for an alert: its source, status and start, its labels and its annotations. The raw
/// payload is not in it.
pub open spec fn prompt_text(alert: AlertView) -> Seq<char> {
    "source: "@ + alert.source + "\nstatus: "@ + alert.status.text() + "\nstarted: "@
        + crate::time::time_text(alert.starts_at.secs(), alert.starts_at.nanos()) + "\n"@
        + section_text("labels"@, alert.labels) + section_text("annotations"@, alert.annotations)
}

/// Writes the prompt that asks for the triage of `alert`.
#[must_use]
pub fn render_prompt(alert: &Alert) -> (prompt: String)
    ensures
        prompt@ == prompt_text(alert@),
{
    let mut prompt: String = String::from_str("source: ");
    prompt.append(alert.source);
    prompt.append("\nstatus: ");
    prompt.append(alert.status.as_str());
    prompt.append("\nstarted: ");
    let started: String = alert.starts_at.text();
    prompt.append(started.as_str());
    prompt.append("\n");
    push_section(&mut prompt, "labels", &alert.labels);
    push_section(&mut prompt, "annotations", &alert.annotations);
    prompt
}

/// Appends a section to the prompt.
fn push_section(prompt: &mut String, name: &str, entries: &Labels)
    ensures
        final(prompt)@ == old(prompt)@ + section_text(name@, entries@),
{
    let ghost before = prompt@;
    let ghost pairs = sorted_pairs(entries@);
    if entries.len() == 0 {
        assert(before + section_text(name@, entries@) =~= before);
        return;
    }
    prompt.append(name);
    prompt.append(":\n");
    let ghost head = prompt@;
    let mut i: usize = 0;
    assert(pairs.take(0) =~= Seq::empty());
    assert(head + pair_lines(pairs.take(0)) =~= head);
    while i < entries.len()
        invariant
            i <= pairs.len(),
            pairs == sorted_pairs(entries@),
            prompt@ == head + pair_lines(pairs.take(i as int)),
        decreases pairs.len() - i,
    {
        let (key, value) = entries.at(i);
        prompt.append("  ");
        prompt.append(key);
        prompt.append(": ");
        prompt.append(value.as_str());
        prompt.append("\n");
        proof {
            let next = pairs.take(i + 1);
            assert(next.drop_last() =~= pairs.take(i as int));
            assert(next.last() == (key@, value@));
            assert(prompt@ =~= head + pair_lines(next));
        }
        i = i + 1;
    }
    assert(pairs.take(pairs.len() as int) =~= pairs);
    assert(prompt@ =~= before + section_text(name@, entries@));
}

/// Incident priority.
#[derive(Clone, Copy, PartialEq, Eq, Structural, Debug)]
pub enum Severity {
    P1,
    P2,
    P3,
    P4,
    Unknown,
}

impl Severity {
    /// The name of the severity.
    pub open spec fn text(self) -> Seq<char> {
        match self {
            Severity::P1 => "P1"@,
            Severity::P2 => "P2"@,
            Severity::P3 => "P3"@,
            Severity::P4 => "P4"@,
            Severity::Unknown => "Unknown"@,
        }
    }

    /// The name of the severity.
    pub fn as_str(self) -> (text: &'static str)
        ensures
            text@ == self.text(),
    {
        match self {
            Severity::P1 => "P1",
            Severity::P2 => "P2",
            Severity::P3 => "P3",
            Severity::P4 => "P4",
            Severity::Unknown => "Unknown",
        }
    }
}

/// The assessment of a single alert.
#[derive(Debug)]
pub struct TriageResult {
    pub severity: Severity,
    pub service: Option<String>,
    pub tags: Vec<String>,
    pub summary: String,
}

/// What a [`TriageResult`] holds.
pub struct TriageView {
    pub severity: Severity,
    pub service: Option<Seq<char>>,
    pub tags: Seq<Seq<char>>,
    pub summary: Seq<char>,
}

impl View for TriageResult {
    type V = TriageView;

    open spec fn view(&self) -> TriageView {
        TriageView {
            severity: self.severity,
            service: crate::text::option_text(self.service),
            tags: crate::text::texts(self.tags@),
            summary: self.summary@,
        }
    }
}

impl Clone for TriageResult {
    fn clone(&self) -> (copy: TriageResult)
        ensures
            copy@ == self@,
    {
        let service: Option<String> = match &self.service {
            Some(service) => Some(service.clone()),
            None => None,
        };
        TriageResult {
            severity: self.severity,
            service,
            tags: crate::text::clone_texts(&self.tags),
            summary: self.summary.clone(),
        }
    }
}

/// The lines of two lists of pairs are those of the one and then those of the other; a single pair
/// gives one indented line with its key and its value.
pub proof fn law_each_pair_has_a_line(
    first: Seq<(Seq<char>, Seq<char>)>,
    second: Seq<(Seq<char>, Seq<char>)>,
    pair: (Seq<char>, Seq<char>),
)
    ensures
        pair_lines(first + second) == pair_lines(first) + pair_lines(second),
        pair_lines(seq![pair]) == "  "@ + pair.0 + ": "@ + pair.1 + "\n"@,
    decreases second.len(),
{
    if second.len() == 0 {
        assert(first + second =~= first);
        assert(pair_lines(first) + pair_lines(second) =~= pair_lines(first));
    } else {
        law_each_pair_has_a_line(first, second.drop_last(), pair);
        assert((first + second).drop_last() =~= first + second.drop_last());
        assert((first + second).last() == second.last());
        assert(pair_lines(first + second) =~= pair_lines(first) + pair_lines(second));
    }
    assert(seq![pair].drop_last() =~= Seq::empty());
    assert(pair_lines(seq![pair].drop_last()) =~= Seq::empty());
    assert(pair_lines(seq![pair]) =~= "  "@ + pair.0 + ": "@ + pair.1 + "\n"@);
}

proof fn lemma_section_shows(
    name: Seq<char>,
    entries: Map<Seq<char>, Seq<char>>,
    key: Seq<char>,
) -> (around: (Seq<char>, Seq<char>))
    requires
        entries.dom().finite(),
        entries.contains_key(key),
    ensures
        section_text(name, entries) == around.0 + ("  "@ + key + ": "@ + entries[key] + "\n"@)
            + around.1,
{
    let pairs = sorted_pairs(entries);
    let at = law_sorted_pairs_are_the_entries(entries, key);
    let first = pairs.take(at);
    let rest = pairs.skip(at + 1);
    assert(pairs =~= first + seq![pairs[at]] + rest);
    law_each_pair_has_a_line(first + seq![pairs[at]], rest, pairs[at]);
    law_each_pair_has_a_line(first, seq![pairs[at]], pairs[at]);
    let before = name + ":\n"@ + pair_lines(first);
    let after = pair_lines(rest);
    assert(section_text(name, entries) =~= before + ("  "@ + key + ": "@ + entries[key] + "\n"@)
        + after);
    (before, after)
}

/// The prompt begins with the source and the status of the alert and the time at which it started,
/// and shows every label with its value on a line of its own.
pub proof fn law_prompt_shows_every_label(alert: AlertView, key: Seq<char>) -> (around: (
    Seq<char>,
    Seq<char>,
))
    requires
        alert.labels.dom().finite(),
        alert.labels.contains_key(key),
    ensures
        prompt_text(alert) == around.0 + ("  "@ + key + ": "@ + alert.labels[key] + "\n"@)
            + around.1,
        ("source: "@ + alert.source + "\nstatus: "@ + alert.status.text() + "\nstarted: "@
            + crate::time::time_text(alert.starts_at.secs(), alert.starts_at.nanos())
            + "\n"@).is_prefix_of(prompt_text(alert)),
{
    let (left, right) = lemma_section_shows("labels"@, alert.labels, key);
    let head = "source: "@ + alert.source + "\nstatus: "@ + alert.status.text() + "\nstarted: "@
        + crate::time::time_text(alert.starts_at.secs(), alert.starts_at.nanos()) + "\n"@;
    let before = head + left;
    let after = right + section_text("annotations"@, alert.annotations);
    assert(prompt_text(alert) =~= before + ("  "@ + key + ": "@ + alert.labels[key] + "\n"@)
        + after);
    assert(head =~= prompt_text(alert).take(head.len() as int));
    (before, after)
}

/// The prompt shows every annotation with its value on a line of its own.
pub proof fn law_prompt_shows_every_annotation(alert: AlertView, key: Seq<char>) -> (around: (
    Seq<char>,
    Seq<char>,
))
    requires
        alert.annotations.dom().finite(),
        alert.annotations.contains_key(key),
    ensures
        prompt_text(alert) == around.0 + ("  "@ + key + ": "@ + alert.annotations[key] + "\n"@)
            + around.1,
{
    let (left, right) = lemma_section_shows("annotations"@, alert.annotations, key);
    let head = "source: "@ + alert.source + "\nstatus: "@ + alert.status.text() + "\nstarted: "@
        + crate::time::time_text(alert.starts_at.secs(), alert.starts_at.nanos()) + "\n"@
        + section_text("labels"@, alert.labels);
    assert(prompt_text(alert) =~= (head + left) + ("  "@ + key + ": "@ + alert.annotations[key]
        + "\n"@) + right);
    (head + left, right)
}

/// A section without entries is left out, heading and all.
pub proof fn law_empty_sections_are_left_out(name: Seq<char>)
    ensures
        section_text(name, Map::empty()).len() == 0,
{
    let none = Map::<Seq<char>, Seq<char>>::empty();
    let at = law_sorted_pairs_are_the_entries(none, name);
    let pairs = sorted_pairs(none);
    if pairs.len() > 0 {
        assert(none.contains_key(pairs[0].0));
    }
}

impl Severity {
    /// The severities have different names.
    pub proof fn law_names_differ(self, other: Severity)
        ensures
            self.text() == other.text() <==> self == other,
    {
        reveal_strlit("P1");
        reveal_strlit("P2");
        reveal_strlit("P3");
        reveal_strlit("P4");
        reveal_strlit("Unknown");
        assert("P1"@[1] == '1');
        assert("P2"@[1] == '2');
        assert("P3"@[1] == '3');
        assert("P4"@[1] == '4');
        assert("Unknown"@[1] == 'n');
    }
}

} // verus!
