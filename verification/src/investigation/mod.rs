//! Investigation: a language model looks for the cause of an incident in a repository.
use crate::alert::{Alert, AlertView};
use crate::incident::IncidentId;
use crate::text::{join, joined};
use crate::triage::{TriageResult, TriageView};
use vstd::prelude::*;
use vstd::string::*;

pub mod read_file;
pub mod recorder;
pub mod worker;

verus! {

/// What the model is told about its task.
pub const INVESTIGATION_PREAMBLE: &'static str = r#"You investigate an incident for an on-call engineer.

You are given one alert, what triage made of it, and a tool that reads files of
the repository that the alert concerns. Find out what most likely caused the
incident.

- Read before you conclude. Use read_file with paths relative to the repository
  root; paths that resolve outside it are rejected. A long file is truncated,
  and the output says so.
- Follow the names in the alert: the service, its configuration, the code that
  emits the metric.
- Cite only files you actually read. Quote a line verbatim; do not paraphrase a
  quote.
- State how well the evidence supports the summary. Low confidence is a fine
  answer; a guess presented as a finding is not.
"#;

/// A request to investigate an incident.
#[derive(Debug)]
pub struct InvestigationRequest {
    pub incident: IncidentId,
    pub alert: Alert,
    pub triage: TriageResult,
}

/// What triage said, as the model reads it.
pub open spec fn triage_text(triage: TriageView) -> Seq<char> {
    let head = "triage:\n  severity: "@ + triage.severity.text() + "\n  service: "@
        + match triage.service {
        Some(service) => service,
        None => "unidentified"@,
    } + "\n"@;
    let tags = if triage.tags.len() == 0 {
        Seq::empty()
    } else {
        "  tags: "@ + joined(triage.tags, ", "@) + "\n"@
    };
    head + tags + "  summary: "@ + triage.summary + "\n"@
}

/// The prompt for an investigation: the repository where it has a name, the alert, and what triage
/// made of it. The raw payload of the alert is not in it.
pub open spec fn prompt_text(
    repository: Option<Seq<char>>,
    alert: AlertView,
    triage: TriageView,
) -> Seq<char> {
    let head = match repository {
        Some(name) => "repository: "@ + name + "\n"@,
        None => Seq::empty(),
    };
    head + crate::triage::prompt_text(alert) + triage_text(triage)
}

/// The text of a slice that may be missing.
pub open spec fn option_slice(text: Option<&str>) -> Option<Seq<char>> {
    match text {
        Some(t) => Some(t@),
        None => None,
    }
}

/// Writes the prompt that asks for an investigation.
#[must_use]
pub fn render_prompt(request: &InvestigationRequest, repository: Option<&str>) -> (prompt: String)
    ensures
        prompt@ == prompt_text(option_slice(repository), request.alert@, request.triage@),
{
    let mut prompt: String = String::new();
    if let Some(repository) = repository {
        prompt.append("repository: ");
        prompt.append(repository);
        prompt.append("\n");
    }
    let ghost head = prompt@;
    assert(head =~= match option_slice(repository) {
        Some(name) => "repository: "@ + name + "\n"@,
        None => Seq::empty(),
    });
    prompt.append(crate::triage::render_prompt(&request.alert).as_str());
    let ghost before = prompt@;
    let triage: &TriageResult = &request.triage;
    let mut text: String = String::from_str("triage:\n  severity: ");
    text.append(triage.severity.as_str());
    text.append("\n  service: ");
    match &triage.service {
        Some(service) => text.append(service.as_str()),
        None => text.append("unidentified"),
    }
    text.append("\n");
    let ghost upto = text@;
    if triage.tags.len() > 0 {
        text.append("  tags: ");
        text.append(join(&triage.tags, ", ").as_str());
        text.append("\n");
    }
    assert(text@ =~= upto + if triage@.tags.len() == 0 {
        Seq::empty()
    } else {
        "  tags: "@ + joined(triage@.tags, ", "@) + "\n"@
    });
    text.append("  summary: ");
    text.append(triage.summary.as_str());
    text.append("\n");
    prompt.append(text.as_str());
    prompt
}

/// What an investigation came to.
#[derive(Debug)]
pub struct Investigation {
    pub transcript: Transcript,
    pub hypothesis: Option<Hypothesis>,
    /// The evidence whose quotes stand in no tool output.
    pub unverified_evidence: Vec<Evidence>,
}

/// What happened in an investigation.
#[derive(Debug)]
pub struct Transcript {
    pub incident: IncidentId,
    pub model: String,
    pub outcome: Outcome,
    pub usage: TokenUsage,
    pub requests: usize,
    pub duration_ms: u64,
    pub steps: Vec<Step>,
}

/// The outputs of the tool calls among the steps, in order.
pub open spec fn result_texts(steps: Seq<Step>) -> Seq<Seq<char>>
    decreases steps.len(),
{
    if steps.len() == 0 {
        Seq::empty()
    } else {
        match steps.last() {
            Step::ToolCall { result, .. } => result_texts(steps.drop_last()).push(result@),
            Step::Reasoning { .. } => result_texts(steps.drop_last()),
        }
    }
}

/// What a list of string slices holds.
pub open spec fn slices_view(slices: Seq<&str>) -> Seq<Seq<char>> {
    Seq::new(slices.len(), |i: int| slices[i]@)
}

impl Transcript {
    /// The outputs of the tool calls, in order.
    pub fn tool_results(&self) -> (results: Vec<&str>)
        ensures
            slices_view(results@) == result_texts(self.steps@),
    {
        let mut results: Vec<&str> = Vec::new();
        let mut i: usize = 0;
        assert(self.steps@.take(0) =~= Seq::empty());
        assert(slices_view(results@) =~= result_texts(self.steps@.take(0)));
        while i < self.steps.len()
            invariant
                i <= self.steps.len(),
                slices_view(results@) == result_texts(self.steps@.take(i as int)),
            decreases self.steps.len() - i,
        {
            let ghost before = results@;
            if let Step::ToolCall { result, .. } = &self.steps[i] {
                results.push(result.as_str());
            }
            proof {
                let next = self.steps@.take(i + 1);
                assert(next.drop_last() =~= self.steps@.take(i as int));
                assert(slices_view(results@) =~= result_texts(next));
            }
            i = i + 1;
        }
        assert(self.steps@.take(i as int) =~= self.steps@);
        results
    }
}

/// How an investigation ended.
#[derive(Clone, Copy, PartialEq, Eq, Structural, Debug)]
pub enum Outcome {
    Completed,
    MaxTurnsExhausted,
    TimedOut,
    Failed,
}

/// One thing that happened in an investigation. The turn is explicit because one turn may hold
/// several tool calls.
#[derive(Debug)]
#[allow(inconsistent_fields)]
pub enum Step<T = String> {
    Reasoning { turn: usize, text: T },
    ToolCall {
        turn: usize,
        name: T,
        /// The arguments, as compact JSON.
        args: T,
        result: T,
        outcome: ToolOutcome,
        truncated: bool,
    },
}

impl View for Step<String> {
    type V = Step<Seq<char>>;

    open spec fn view(&self) -> Step<Seq<char>> {
        match self {
            Step::Reasoning { turn, text } => Step::Reasoning { turn: *turn, text: text@ },
            Step::ToolCall { turn, name, args, result, outcome, truncated } => Step::ToolCall {
                turn: *turn,
                name: name@,
                args: args@,
                result: result@,
                outcome: *outcome,
                truncated: *truncated,
            },
        }
    }
}

/// What a list of steps holds.
pub open spec fn step_views(steps: Seq<Step>) -> Seq<Step<Seq<char>>> {
    Seq::new(steps.len(), |i: int| steps[i]@)
}

/// Classified, because `result` cannot distinguish a tool that timed out from a file containing the
/// words "the tool timed out".
#[derive(Clone, Copy, PartialEq, Eq, Structural, Debug)]
pub enum ToolOutcome {
    Succeeded,
    Failed { kind: ToolFailure },
}

/// How a tool call failed. Kinds of failure that are not known here count as `Other`.
#[derive(Clone, Copy, PartialEq, Eq, Structural, Debug)]
pub enum ToolFailure {
    InvalidArgs,
    Timeout,
    Cancelled,
    NotFound,
    PermissionDenied,
    RateLimited,
    Provider,
    Network,
    Other,
}

/// Tokens that an investigation used.
#[derive(Clone, Copy, PartialEq, Eq, Structural, Debug)]
pub struct TokenUsage {
    pub input_tokens: u64,
    pub cached_input_tokens: u64,
    pub cache_creation_input_tokens: u64,
    pub output_tokens: u64,
    pub total_tokens: u64,
}

impl Default for TokenUsage {
    fn default() -> (usage: TokenUsage)
        ensures
            usage == (TokenUsage {
                input_tokens: 0,
                cached_input_tokens: 0,
                cache_creation_input_tokens: 0,
                output_tokens: 0,
                total_tokens: 0,
            }),
    {
        TokenUsage {
            input_tokens: 0,
            cached_input_tokens: 0,
            cache_creation_input_tokens: 0,
            output_tokens: 0,
            total_tokens: 0,
        }
    }
}

/// What an investigation concluded, and the evidence it rests on.
#[derive(Debug)]
pub struct Hypothesis {
    pub summary: String,
    pub confidence: Confidence,
    pub evidence: Vec<Evidence>,
    pub affected_components: Vec<String>,
}

/// How well the evidence supports the summary.
#[derive(Clone, Copy, PartialEq, Eq, Structural, Debug)]
pub enum Confidence {
    Low,
    Medium,
    High,
}

/// One citation: the tool that produced it, the path it came from, and a line quoted verbatim from
/// that output.
#[derive(Debug)]
pub struct Evidence<T = String> {
    pub tool: T,
    pub path: T,
    pub quote: T,
}

impl View for Evidence<String> {
    type V = Evidence<Seq<char>>;

    open spec fn view(&self) -> Evidence<Seq<char>> {
        Evidence { tool: self.tool@, path: self.path@, quote: self.quote@ }
    }
}

impl Clone for Evidence<String> {
    fn clone(&self) -> (copy: Evidence)
        ensures
            copy@ == self@,
    {
        Evidence {
            tool: self.tool.clone(),
            path: self.path.clone(),
            quote: self.quote.clone(),
        }
    }
}

/// What a list of evidence holds.
pub open spec fn evidence_views(evidence: Seq<Evidence>) -> Seq<Evidence<Seq<char>>> {
    Seq::new(evidence.len(), |i: int| evidence[i]@)
}

/// What a source sent for an alert does not reach the model: alerts that differ in nothing else have
/// the same prompt.
pub proof fn law_raw_payload_stays_out_of_the_prompt(
    repository: Option<Seq<char>>,
    alert: AlertView,
    raw_payload: Seq<char>,
    triage: TriageView,
)
    ensures
        prompt_text(repository, AlertView { raw_payload, ..alert }, triage) == prompt_text(
            repository,
            alert,
            triage,
        ),
        crate::triage::prompt_text(AlertView { raw_payload, ..alert })
            == crate::triage::prompt_text(alert),
{
}

/// The outputs of steps are those of the tool calls among them, each as it stands in its step and in
/// the order of the steps: a tool call gives its result, a thought gives none, and the outputs of
/// two runs of steps are the outputs of the one and then those of the other.
pub proof fn law_outputs_are_those_of_the_calls(first: Seq<Step>, second: Seq<Step>, step: Step)
    ensures
        result_texts(first + second) == result_texts(first) + result_texts(second),
        step matches Step::ToolCall { result, .. } ==> result_texts(seq![step]) == seq![result@],
        step is Reasoning ==> result_texts(seq![step]).len() == 0,
    decreases second.len(),
{
    if second.len() == 0 {
        assert(first + second =~= first);
        assert(result_texts(first) + result_texts(second) =~= result_texts(first));
    } else {
        law_outputs_are_those_of_the_calls(first, second.drop_last(), step);
        assert((first + second).drop_last() =~= first + second.drop_last());
        assert((first + second).last() == second.last());
        assert(result_texts(first + second) =~= result_texts(first) + result_texts(second));
    }
    assert(seq![step].drop_last() =~= Seq::empty());
    assert(result_texts(seq![step].drop_last()) =~= Seq::empty());
    if let Step::ToolCall { result, .. } = step {
        assert(result_texts(seq![step]) =~= seq![result@]);
    }
}

/// A text is among the outputs exactly if it is the result of a tool call, at whatever place.
pub proof fn law_every_result_is_among_the_outputs(steps: Seq<Step>, text: Seq<char>)
    ensures
        result_texts(steps).contains(text) <==> exists|i: int|
            0 <= i < steps.len() && #[trigger] steps[i] is ToolCall && steps[i]->result@ == text,
    decreases steps.len(),
{
    let outputs = result_texts(steps);
    if steps.len() > 0 {
        let before = steps.drop_last();
        let fewer = result_texts(before);
        law_every_result_is_among_the_outputs(before, text);
        if fewer.contains(text) {
            let k = choose|k: int| 0 <= k < fewer.len() && fewer[k] == text;
            assert(outputs[k] == text);
            let i = choose|i: int|
                0 <= i < before.len() && #[trigger] before[i] is ToolCall && before[i]->result@
                    == text;
            assert(steps[i] is ToolCall && steps[i]->result@ == text);
        }
        if steps.last() is ToolCall && steps.last()->result@ == text {
            assert(outputs[fewer.len() as int] == text);
            assert(steps[steps.len() - 1] is ToolCall);
        }
        if outputs.contains(text) && !fewer.contains(text) {
            let k = choose|k: int| 0 <= k < outputs.len() && outputs[k] == text;
            if k < fewer.len() {
                assert(fewer[k] == text);
            }
            assert(steps[steps.len() - 1] is ToolCall);
        }
        if exists|i: int|
            0 <= i < steps.len() && #[trigger] steps[i] is ToolCall && steps[i]->result@ == text {
            let i = choose|i: int|
                0 <= i < steps.len() && #[trigger] steps[i] is ToolCall && steps[i]->result@
                    == text;
            if i < before.len() {
                assert(before[i] is ToolCall && before[i]->result@ == text);
            }
        }
    }
}

/// The prompt for an investigation tells what triage said: the severity, the service where there is
/// one, every tag, and the summary at its end; the whole prompt for the triage of the alert stands
/// in it, after the name of the repository where that has one.
pub proof fn law_prompt_tells_what_triage_said(
    repository: Option<Seq<char>>,
    alert: AlertView,
    triage: TriageView,
) -> (tags: Seq<char>)
    ensures
        ({
            let prompt = prompt_text(repository, alert, triage);
            let head = match repository {
                Some(name) => "repository: "@ + name + "\n"@,
                None => Seq::empty(),
            };
            let service = match triage.service {
                Some(service) => service,
                None => "unidentified"@,
            };
            &&& prompt == head + crate::triage::prompt_text(alert) + ("triage:\n  severity: "@
                + triage.severity.text() + "\n  service: "@ + service + "\n"@) + tags
                + ("  summary: "@ + triage.summary + "\n"@)
            &&& triage.tags.len() > 0 ==> tags == "  tags: "@ + joined(triage.tags, ", "@)
                + "\n"@
            &&& triage.tags.len() == 0 ==> tags.len() == 0
        }),
{
    let head = match repository {
        Some(name) => "repository: "@ + name + "\n"@,
        None => Seq::empty(),
    };
    let service = match triage.service {
        Some(service) => service,
        None => "unidentified"@,
    };
    let tags: Seq<char> = if triage.tags.len() == 0 {
        Seq::empty()
    } else {
        "  tags: "@ + joined(triage.tags, ", "@) + "\n"@
    };
    assert(prompt_text(repository, alert, triage) =~= head + crate::triage::prompt_text(alert) + (
    "triage:\n  severity: "@ + triage.severity.text() + "\n  service: "@ + service + "\n"@) + tags
        + ("  summary: "@ + triage.summary + "\n"@));
    tags
}

} // verus!
