//! One investigation, and the worker that runs them.
use super::{
    evidence_views, law_every_result_is_among_the_outputs, result_texts, slices_view, Evidence,
    Hypothesis, Investigation, Outcome, Step, TokenUsage, Transcript,
};
use crate::incident::IncidentId;
use crate::text::{
    contains, is_trimmed, is_white_space, join, joined, lemma_trimmed_is_unique, occurs_in,
    option_text, texts, trimmed,
};
use vstd::prelude::*;
use vstd::string::*;

verus! {

/// How often the model may name a tool that does not exist and be told so.
pub const INVALID_TOOL_CALL_RETRIES: usize = 2;

/// What a model is told that named a tool that does not exist.
pub fn invalid_tool_feedback(tool_name: &str, available_tools: &Vec<String>) -> (feedback: String)
    ensures
        feedback@ == "there is no tool named `"@ + tool_name@ + "`; call one of: "@ + joined(
            texts(available_tools@),
            ", "@,
        ),
{
    let mut feedback: String = String::from_str("there is no tool named `");
    feedback.append(tool_name);
    feedback.append("`; call one of: ");
    feedback.append(join(available_tools, ", ").as_str());
    feedback
}

/// How a run of the model ended.
#[derive(Debug)]
pub enum RunResult {
    /// It answered, after so many requests; the answer is a hypothesis, or this is why it is none.
    Completed { requests: usize, hypothesis: Result<Hypothesis, String> },
    /// It used up its turns.
    MaxTurns { message: String },
    /// It failed otherwise.
    Failed { message: String },
    TimedOut,
}

/// How the investigation ended: a run whose answer is no hypothesis has failed.
pub open spec fn outcome_of(run: RunResult) -> Outcome {
    match run {
        RunResult::Completed { hypothesis: Ok(_), .. } => Outcome::Completed,
        RunResult::Completed { hypothesis: Err(_), .. } => Outcome::Failed,
        RunResult::MaxTurns { .. } => Outcome::MaxTurnsExhausted,
        RunResult::Failed { .. } => Outcome::Failed,
        RunResult::TimedOut => Outcome::TimedOut,
    }
}

/// Why the investigation did not complete, where there is something to say.
pub open spec fn cause_of(run: RunResult) -> Option<Seq<char>> {
    match run {
        RunResult::Completed { hypothesis: Ok(_), .. } => None,
        RunResult::Completed { hypothesis: Err(error), .. } => Some(
            "output is not a Hypothesis: "@ + error@,
        ),
        RunResult::MaxTurns { message } => Some(message@),
        RunResult::Failed { message } => Some(message@),
        RunResult::TimedOut => None,
    }
}

/// The turn of a step.
pub open spec fn turn_of(step: Step) -> usize {
    match step {
        Step::Reasoning { turn, .. } => turn,
        Step::ToolCall { turn, .. } => turn,
    }
}

/// The highest turn among the steps; zero where there are none.
pub open spec fn last_turn(steps: Seq<Step>) -> usize
    decreases steps.len(),
{
    if steps.len() == 0 {
        0
    } else {
        let before = last_turn(steps.drop_last());
        let turn = turn_of(steps.last());
        if turn > before {
            turn
        } else {
            before
        }
    }
}

/// The highest turn among the steps; zero where there are none.
pub fn turns(steps: &Vec<Step>) -> (turn: usize)
    ensures
        turn == last_turn(steps@),
{
    let mut highest: usize = 0;
    let mut i: usize = 0;
    assert(steps@.take(0) =~= Seq::empty());
    while i < steps.len()
        invariant
            i <= steps.len(),
            highest == last_turn(steps@.take(i as int)),
        decreases steps.len() - i,
    {
        let turn: usize = match &steps[i] {
            Step::Reasoning { turn, .. } => *turn,
            Step::ToolCall { turn, .. } => *turn,
        };
        if turn > highest {
            highest = turn;
        }
        proof {
            let next = steps@.take(i + 1);
            assert(next.drop_last() =~= steps@.take(i as int));
        }
        i = i + 1;
    }
    assert(steps@.take(i as int) =~= steps@);
    highest
}

/// The quote, without white space around it, stands in one of the tool outputs.
pub open spec fn quoted_in(quote: Seq<char>, results: Seq<Seq<char>>) -> bool {
    exists|kept: Seq<char>, i: int|
        #[trigger] is_trimmed(kept, quote) && kept.len() > 0 && 0 <= i < results.len()
            && occurs_in(kept, #[trigger] results[i])
}

/// The evidence whose quotes stand in none of the tool outputs, in order.
pub open spec fn unquoted(
    evidence: Seq<Evidence<Seq<char>>>,
    results: Seq<Seq<char>>,
) -> Seq<Evidence<Seq<char>>>
    decreases evidence.len(),
{
    if evidence.len() == 0 {
        Seq::empty()
    } else if quoted_in(evidence.last().quote, results) {
        unquoted(evidence.drop_last(), results)
    } else {
        unquoted(evidence.drop_last(), results).push(evidence.last())
    }
}

/// Whether the quote stands in one of the tool outputs.
fn is_quoted(quote: &str, results: &Vec<&str>) -> (quoted: bool)
    ensures
        quoted == quoted_in(quote@, slices_view(results@)),
{
    let kept: &str = trimmed(quote);
    let ghost all = slices_view(results@);
    proof {
        assert forall|other: Seq<char>| #[trigger] is_trimmed(other, quote@) implies other
            == kept@ by {
            lemma_trimmed_is_unique(other, kept@, quote@);
        }
    }
    if kept.is_empty() {
        return false;
    }
    let mut i: usize = 0;
    while i < results.len()
        invariant
            i <= results.len(),
            all == slices_view(results@),
            is_trimmed(kept@, quote@),
            kept@.len() > 0,
            forall|j: int| 0 <= j < i ==> !occurs_in(kept@, #[trigger] all[j]),
        decreases results.len() - i,
    {
        assert(all[i as int] == results[i as int]@);
        if contains(results[i], kept) {
            return true;
        }
        i = i + 1;
    }
    false
}

/// The evidence whose quotes stand in no tool output of the transcript.
pub fn unverified(hypothesis: &Hypothesis, transcript: &Transcript) -> (evidence: Vec<Evidence>)
    ensures
        evidence_views(evidence@) == unquoted(
            evidence_views(hypothesis.evidence@),
            result_texts(transcript.steps@),
        ),
{
    let results: Vec<&str> = transcript.tool_results();
    let ghost outputs = result_texts(transcript.steps@);
    let ghost all = evidence_views(hypothesis.evidence@);
    let mut found: Vec<Evidence> = Vec::new();
    let mut i: usize = 0;
    assert(all.take(0) =~= Seq::empty());
    assert(evidence_views(found@) =~= unquoted(all.take(0), outputs));
    while i < hypothesis.evidence.len()
        invariant
            i <= hypothesis.evidence.len(),
            all == evidence_views(hypothesis.evidence@),
            slices_view(results@) == outputs,
            evidence_views(found@) == unquoted(all.take(i as int), outputs),
        decreases hypothesis.evidence.len() - i,
    {
        let entry: &Evidence = &hypothesis.evidence[i];
        if !is_quoted(entry.quote.as_str(), &results) {
            found.push(entry.clone());
        }
        proof {
            let next = all.take(i + 1);
            assert(next.drop_last() =~= all.take(i as int));
            assert(next.last() == entry@);
            assert(evidence_views(found@) =~= unquoted(next, outputs));
        }
        i = i + 1;
    }
    assert(all.take(i as int) =~= all);
    found
}

/// The evidence of a hypothesis that may be missing.
pub open spec fn evidence_of(hypothesis: Option<Hypothesis>) -> Seq<Evidence<Seq<char>>> {
    match hypothesis {
        Some(h) => evidence_views(h.evidence@),
        None => Seq::empty(),
    }
}

/// How many requests the run made: as it says itself, or else as the turns that were recorded tell.
pub open spec fn requests_of(run: RunResult, steps: Seq<Step>) -> usize {
    match run {
        RunResult::Completed { requests, .. } => requests,
        _ => last_turn(steps),
    }
}

/// What an investigation came to, and why it did not complete if it did not. What was recorded is
/// kept however the run ended.
pub fn conclude(
    incident: IncidentId,
    model: String,
    run: RunResult,
    steps: Vec<Step>,
    usage: TokenUsage,
    duration_ms: u64,
) -> (concluded: (Investigation, Option<String>))
    ensures
        ({
            let (investigation, cause) = concluded;
            let transcript = investigation.transcript;
            &&& transcript.incident == incident
            &&& transcript.model == model
            &&& transcript.outcome == outcome_of(run)
            &&& transcript.usage == usage
            &&& transcript.requests == requests_of(run, steps@)
            &&& transcript.duration_ms == duration_ms
            &&& transcript.steps == steps
            &&& investigation.hypothesis == match run {
                RunResult::Completed { hypothesis: Ok(h), .. } => Some(h),
                _ => None,
            }
            &&& evidence_views(investigation.unverified_evidence@) == unquoted(
                evidence_of(investigation.hypothesis),
                result_texts(steps@),
            )
            &&& option_text(cause) == cause_of(run)
        }),
{
    let recorded: usize = turns(&steps);
    let (outcome, hypothesis, requests, cause) = match run {
        RunResult::Completed { requests, hypothesis } => match hypothesis {
            Ok(hypothesis) => (Outcome::Completed, Some(hypothesis), requests, None),
            Err(error) => {
                let mut cause: String = String::from_str("output is not a Hypothesis: ");
                cause.append(error.as_str());
                (Outcome::Failed, None, requests, Some(cause))
            },
        },
        RunResult::MaxTurns { message } => {
            (Outcome::MaxTurnsExhausted, None, recorded, Some(message))
        },
        RunResult::Failed { message } => (Outcome::Failed, None, recorded, Some(message)),
        RunResult::TimedOut => (Outcome::TimedOut, None, recorded, None),
    };
    let transcript: Transcript = Transcript {
        incident,
        model,
        outcome,
        usage,
        requests,
        duration_ms,
        steps,
    };
    let unverified_evidence: Vec<Evidence> = match &hypothesis {
        Some(hypothesis) => unverified(hypothesis, &transcript),
        None => {
            let none: Vec<Evidence> = Vec::new();
            assert(evidence_views(none@) =~= Seq::empty());
            none
        },
    };
    (Investigation { transcript, hypothesis, unverified_evidence }, cause)
}

/// Milliseconds, as many as fit.
pub fn capped_millis(millis: u128) -> (capped: u64)
    ensures
        capped == if millis <= u64::MAX {
            millis as u64
        } else {
            u64::MAX
        },
{
    if millis <= u64::MAX as u128 {
        millis as u64
    } else {
        u64::MAX
    }
}

/// What the log says of an investigation.
pub fn outcome_message(outcome: Outcome) -> (message: &'static str)
    ensures
        message@ == if outcome == Outcome::Completed {
            "incident investigated"@
        } else {
            "investigation abandoned; incident stays uninvestigated"@
        },
{
    match outcome {
        Outcome::Completed => "incident investigated",
        _ => "investigation abandoned; incident stays uninvestigated",
    }
}

/// What the worker does next.
#[derive(Clone, Copy, PartialEq, Eq, Structural, Debug)]
pub enum Phase {
    /// It waits for a shutdown or a request, whichever is there first.
    Idle,
    /// It runs an investigation, and still listens for a shutdown.
    Busy,
    /// It counts the requests that are still queued, and drops them.
    Draining,
    /// It is done.
    Stopped,
}

/// What the worker hears.
#[derive(Clone, Copy, PartialEq, Eq, Structural, Debug)]
pub enum Event {
    Shutdown,
    /// A request came in.
    Requested,
    /// The queue is closed, or empty while it is drained.
    NoRequest,
    /// The investigation in hand has ended, and its result was handed on.
    Finished,
}

/// The state of the worker.
#[derive(Clone, Copy, PartialEq, Eq, Structural, Debug)]
pub struct Worker {
    pub phase: Phase,
    /// How many requests were dropped.
    pub dropped: usize,
}

impl Worker {
    /// The phase after an event.
    pub open spec fn next_phase(phase: Phase, event: Event) -> Phase {
        match (phase, event) {
            (Phase::Idle, Event::Shutdown) => Phase::Draining,
            (Phase::Idle, Event::NoRequest) => Phase::Draining,
            (Phase::Idle, Event::Requested) => Phase::Busy,
            (Phase::Busy, Event::Shutdown) => Phase::Draining,
            (Phase::Busy, Event::Finished) => Phase::Idle,
            (Phase::Draining, Event::NoRequest) => Phase::Stopped,
            _ => phase,
        }
    }

    /// The event is a request that the worker drops and counts: the one in hand at a shutdown, or
    /// one that is still queued then.
    pub open spec fn drops(phase: Phase, event: Event) -> bool {
        ||| phase == Phase::Busy && event == Event::Shutdown
        ||| phase == Phase::Draining && event == Event::Requested
    }

    /// A worker that has taken no request.
    pub fn new() -> (worker: Worker)
        ensures
            worker == (Worker { phase: Phase::Idle, dropped: 0 }),
    {
        Worker { phase: Phase::Idle, dropped: 0 }
    }

    /// Takes one event. An event that the phase does not wait for is ignored.
    pub fn step(&mut self, event: Event)
        requires
            Worker::drops(old(self).phase, event) ==> old(self).dropped < usize::MAX,
        ensures
            final(self).phase == Worker::next_phase(old(self).phase, event),
            final(self).dropped == old(self).dropped + if Worker::drops(old(self).phase, event) {
                1int
            } else {
                0
            },
    {
        match self.phase {
            Phase::Idle => match event {
                Event::Shutdown => {
                    self.phase = Phase::Draining;
                },
                Event::NoRequest => {
                    self.phase = Phase::Draining;
                },
                Event::Requested => {
                    self.phase = Phase::Busy;
                },
                Event::Finished => {},
            },
            Phase::Busy => match event {
                Event::Shutdown => {
                    self.dropped = self.dropped + 1;
                    self.phase = Phase::Draining;
                },
                Event::Finished => {
                    self.phase = Phase::Idle;
                },
                _ => {},
            },
            Phase::Draining => match event {
                Event::Requested => {
                    self.dropped = self.dropped + 1;
                },
                Event::NoRequest => {
                    self.phase = Phase::Stopped;
                },
                _ => {},
            },
            Phase::Stopped => {},
        }
    }
}

/// The unverified evidence is exactly the evidence whose quotes stand in no tool output.
pub proof fn law_unverified_evidence_is_exact(
    evidence: Seq<Evidence<Seq<char>>>,
    results: Seq<Seq<char>>,
    entry: Evidence<Seq<char>>,
)
    ensures
        unquoted(evidence, results).contains(entry) <==> evidence.contains(entry) && !quoted_in(
            entry.quote,
            results,
        ),
    decreases evidence.len(),
{
    let found = unquoted(evidence, results);
    if evidence.len() > 0 {
        let before = evidence.drop_last();
        let last = evidence.last();
        law_unverified_evidence_is_exact(before, results, entry);
        let kept = unquoted(before, results);
        if before.contains(entry) {
            let i = choose|i: int| 0 <= i < before.len() && before[i] == entry;
            assert(evidence[i] == entry);
        }
        if evidence.contains(entry) && entry != last {
            let i = choose|i: int| 0 <= i < evidence.len() && evidence[i] == entry;
            assert(before[i] == entry);
        }
        if entry == last {
            assert(evidence[evidence.len() - 1] == entry);
        }
        if !quoted_in(last.quote, results) {
            if kept.contains(entry) {
                let i = choose|i: int| 0 <= i < kept.len() && kept[i] == entry;
                assert(found[i] == entry);
            }
            if entry == last {
                assert(found[kept.len() as int] == entry);
            }
            if found.contains(entry) && entry != last {
                let i = choose|i: int| 0 <= i < found.len() && found[i] == entry;
                assert(kept[i] == entry);
            }
        }
    }
}

/// A quote of nothing but white space is never taken for evidence.
pub proof fn law_blank_quote_is_unverified(quote: Seq<char>, results: Seq<Seq<char>>)
    requires
        crate::text::is_blank(quote),
    ensures
        !quoted_in(quote, results),
{
    if quoted_in(quote, results) {
        let (kept, i) = choose|kept: Seq<char>, i: int|
            #[trigger] is_trimmed(kept, quote) && kept.len() > 0 && 0 <= i < results.len()
                && occurs_in(kept, #[trigger] results[i]);
        crate::text::lemma_trimmed_blank(kept, quote);
    }
}

/// The phase and the number of dropped requests after these events, one after another.
pub open spec fn after_events(phase: Phase, dropped: nat, events: Seq<Event>) -> (Phase, nat)
    decreases events.len(),
{
    if events.len() == 0 {
        (phase, dropped)
    } else {
        let (before, count) = after_events(phase, dropped, events.drop_last());
        let event = events.last();
        (
            Worker::next_phase(before, event),
            count + if Worker::drops(before, event) {
                1nat
            } else {
                0nat
            },
        )
    }
}

/// A shutdown drops the request in hand, if there is one, and every request that is still queued:
/// each counts once, and then the worker is done.
pub proof fn law_shutdown_drops_what_is_left(phase: Phase, dropped: nat, queued: nat)
    requires
        phase == Phase::Idle || phase == Phase::Busy,
    ensures
        after_events(
            phase,
            dropped,
            seq![Event::Shutdown] + Seq::new(queued, |i: int| Event::Requested)
                + seq![Event::NoRequest],
        ) == (
            Phase::Stopped,
            dropped + queued + if phase == Phase::Busy {
                1nat
            } else {
                0nat
            },
        ),
{
    let drained = seq![Event::Shutdown] + Seq::new(queued, |i: int| Event::Requested);
    lemma_draining_counts(phase, dropped, queued);
    assert((drained + seq![Event::NoRequest]).drop_last() =~= drained);
}

/// While it drains the queue, the worker counts every request.
proof fn lemma_draining_counts(phase: Phase, dropped: nat, queued: nat)
    requires
        phase == Phase::Idle || phase == Phase::Busy,
    ensures
        after_events(
            phase,
            dropped,
            seq![Event::Shutdown] + Seq::new(queued, |i: int| Event::Requested),
        ) == (
            Phase::Draining,
            dropped + queued + if phase == Phase::Busy {
                1nat
            } else {
                0nat
            },
        ),
    decreases queued,
{
    let events = seq![Event::Shutdown] + Seq::new(queued, |i: int| Event::Requested);
    if queued == 0 {
        assert(events.drop_last() =~= seq![]);
        assert(after_events(phase, dropped, events.drop_last()) == (phase, dropped));
    } else {
        let fewer = (queued - 1) as nat;
        lemma_draining_counts(phase, dropped, fewer);
        assert(events.drop_last() =~= seq![Event::Shutdown] + Seq::new(
            fewer,
            |i: int| Event::Requested,
        ));
    }
}

/// A piece of evidence is verified by any tool call, at whatever place among the steps: where its
/// quote is not blank, and the quote without the white space around it stands in the result of that
/// call, the evidence is not among the unverified.
pub proof fn law_quote_from_any_call_is_verified(
    evidence: Seq<Evidence<Seq<char>>>,
    entry: Evidence<Seq<char>>,
    left: Seq<char>,
    kept: Seq<char>,
    right: Seq<char>,
    steps: Seq<Step>,
    at: int,
    before: Seq<char>,
    after: Seq<char>,
)
    requires
        entry.quote == left + kept + right,
        forall|i: int| 0 <= i < left.len() ==> is_white_space(#[trigger] left[i]),
        forall|i: int| 0 <= i < right.len() ==> is_white_space(#[trigger] right[i]),
        kept.len() > 0,
        !is_white_space(kept[0]),
        !is_white_space(kept[kept.len() - 1]),
        0 <= at < steps.len(),
        steps[at] matches Step::ToolCall { result, .. } && result@ == before + kept + after,
    ensures
        !unquoted(evidence, result_texts(steps)).contains(entry),
{
    let outputs = result_texts(steps);
    let output = before + kept + after;
    assert(steps[at] is ToolCall && steps[at]->result@ == output);
    law_every_result_is_among_the_outputs(steps, output);
    let i = choose|i: int| 0 <= i < outputs.len() && outputs[i] == output;
    lemma_middle_is_trimmed(left, kept, right);
    assert(kept =~= output.subrange(
        before.len() as int,
        before.len() as int + kept.len(),
    ));
    assert(occurs_in(kept, outputs[i]));
    law_unverified_evidence_is_exact(evidence, outputs, entry);
}

/// Evidence whose quote stands in the result of no tool call is among the unverified.
pub proof fn law_quote_from_no_call_is_unverified(
    evidence: Seq<Evidence<Seq<char>>>,
    entry: Evidence<Seq<char>>,
    left: Seq<char>,
    kept: Seq<char>,
    right: Seq<char>,
    steps: Seq<Step>,
)
    requires
        evidence.contains(entry),
        entry.quote == left + kept + right,
        forall|i: int| 0 <= i < left.len() ==> is_white_space(#[trigger] left[i]),
        forall|i: int| 0 <= i < right.len() ==> is_white_space(#[trigger] right[i]),
        kept.len() > 0,
        !is_white_space(kept[0]),
        !is_white_space(kept[kept.len() - 1]),
        forall|at: int, start: int|
            0 <= at < steps.len() && steps[at] is ToolCall && 0 <= start && start + kept.len()
                <= steps[at]->result@.len() ==> #[trigger] steps[at]->result@.subrange(
                start,
                start + kept.len(),
            ) != kept,
    ensures
        unquoted(evidence, result_texts(steps)).contains(entry),
{
    let outputs = result_texts(steps);
    lemma_middle_is_trimmed(left, kept, right);
    if quoted_in(entry.quote, outputs) {
        let (other, i) = choose|other: Seq<char>, i: int|
            #[trigger] is_trimmed(other, entry.quote) && other.len() > 0 && 0 <= i < outputs.len()
                && occurs_in(other, #[trigger] outputs[i]);
        lemma_trimmed_is_unique(other, kept, entry.quote);
        let output = outputs[i];
        assert(outputs.contains(output));
        law_every_result_is_among_the_outputs(steps, output);
        let at = choose|at: int|
            0 <= at < steps.len() && #[trigger] steps[at] is ToolCall && steps[at]->result@
                == output;
        let start = choose|start: int|
            0 <= start && start + kept.len() <= output.len() && kept == #[trigger] output.subrange(
                start,
                start + kept.len(),
            );
        assert(steps[at]->result@.subrange(start, start + kept.len()) == kept);
    }
    law_unverified_evidence_is_exact(evidence, outputs, entry);
}

proof fn lemma_middle_is_trimmed(left: Seq<char>, kept: Seq<char>, right: Seq<char>)
    requires
        forall|i: int| 0 <= i < left.len() ==> is_white_space(#[trigger] left[i]),
        forall|i: int| 0 <= i < right.len() ==> is_white_space(#[trigger] right[i]),
        kept.len() > 0,
        !is_white_space(kept[0]),
        !is_white_space(kept[kept.len() - 1]),
    ensures
        is_trimmed(kept, left + kept + right),
{
    let text = left + kept + right;
    let start = left.len() as int;
    assert(kept =~= text.subrange(start, start + kept.len()));
    assert(text.take(start) =~= left);
    assert(text.skip(start + kept.len()) =~= right);
}

/// The unverified evidence keeps its order, and each piece is judged by itself: the unverified
/// among two lists are those of the one and then those of the other.
pub proof fn law_evidence_is_judged_piece_by_piece(
    first: Seq<Evidence<Seq<char>>>,
    second: Seq<Evidence<Seq<char>>>,
    entry: Evidence<Seq<char>>,
    results: Seq<Seq<char>>,
)
    ensures
        unquoted(first + second, results) == unquoted(first, results) + unquoted(second, results),
        unquoted(seq![entry], results) == seq![entry] || unquoted(seq![entry], results).len() == 0,
    decreases second.len(),
{
    if second.len() == 0 {
        assert(first + second =~= first);
        assert(unquoted(first, results) + unquoted(second, results) =~= unquoted(first, results));
    } else {
        law_evidence_is_judged_piece_by_piece(first, second.drop_last(), entry, results);
        assert((first + second).drop_last() =~= first + second.drop_last());
        assert((first + second).last() == second.last());
        assert(unquoted(first + second, results) =~= unquoted(first, results) + unquoted(
            second,
            results,
        ));
    }
    assert(seq![entry].drop_last() =~= Seq::empty());
    assert(unquoted(seq![entry].drop_last(), results) =~= Seq::empty());
    assert(unquoted(seq![entry], results) =~= seq![entry] || unquoted(seq![entry], results).len()
        == 0);
}

/// Where a run does not say how many requests it made, the highest turn that was recorded counts: no
/// step has a higher one, and one has it, unless nothing was recorded.
pub proof fn law_recorded_turns_count_as_requests(run: RunResult, steps: Seq<Step>, at: int)
    requires
        !(run is Completed),
        0 <= at < steps.len(),
    ensures
        (match steps[at] {
            Step::Reasoning { turn, .. } => turn,
            Step::ToolCall { turn, .. } => turn,
        }) <= requests_of(run, steps),
        requests_of(run, Seq::empty()) == 0,
        requests_of(run, steps) == 0 || exists|i: int|
            0 <= i < steps.len() && (match #[trigger] steps[i] {
                Step::Reasoning { turn, .. } => turn,
                Step::ToolCall { turn, .. } => turn,
            }) == requests_of(run, steps),
    decreases steps.len(),
{
    let before = steps.drop_last();
    let last = steps.len() - 1;
    assert(steps[last] == steps.last());
    if before.len() > 0 {
        let earlier = if at < last {
            at
        } else {
            0
        };
        law_recorded_turns_count_as_requests(run, before, earlier);
        assert(before[earlier] == steps[earlier]);
        if last_turn(before) > 0 {
            let i = choose|i: int|
                0 <= i < before.len() && (match #[trigger] before[i] {
                    Step::Reasoning { turn, .. } => turn,
                    Step::ToolCall { turn, .. } => turn,
                }) == last_turn(before);
            assert(steps[i] == before[i]);
        }
    } else {
        assert(last_turn(before) == 0);
    }
}

/// An investigation is completed exactly if the run answered with a hypothesis; an answer that is
/// none has failed, and a cause is given for all but a completed one and one that timed out.
pub proof fn law_completed_exactly_with_a_hypothesis(run: RunResult)
    ensures
        outcome_of(run) == Outcome::Completed <==> run is Completed && run->hypothesis is Ok,
        outcome_of(run) == Outcome::TimedOut <==> run is TimedOut,
        outcome_of(run) == Outcome::MaxTurnsExhausted <==> run is MaxTurns,
        cause_of(run) is None <==> outcome_of(run) == Outcome::Completed || outcome_of(run)
            == Outcome::TimedOut,
        run matches RunResult::Failed { message } ==> cause_of(run) == Some(message@),
        run matches RunResult::MaxTurns { message } ==> cause_of(run) == Some(message@),
{
}

/// Requests that are taken and finished one after another are not dropped, however many there are,
/// and the worker waits for the next.
pub proof fn law_finished_requests_are_not_dropped(dropped: nat, events: Seq<Event>)
    requires
        events.len() % 2 == 0,
        forall|i: int|
            0 <= i < events.len() ==> #[trigger] events[i] == if i % 2 == 0 {
                Event::Requested
            } else {
                Event::Finished
            },
    ensures
        after_events(Phase::Idle, dropped, events) == (Phase::Idle, dropped),
    decreases events.len(),
{
    if events.len() > 0 {
        let taken = events.drop_last();
        assert(events.last() == events[events.len() - 1]);
        assert(taken.last() == events[events.len() - 2]);
        law_finished_requests_are_not_dropped(dropped, taken.drop_last());
        assert(after_events(Phase::Idle, dropped, taken) == (Phase::Busy, dropped));
    }
}

/// While a request is in hand nothing is dropped but by a shutdown, and a worker that is done stays
/// done.
pub proof fn law_only_a_shutdown_drops(phase: Phase, event: Event)
    ensures
        phase == Phase::Idle ==> !Worker::drops(phase, event),
        phase == Phase::Busy && event != Event::Shutdown ==> !Worker::drops(phase, event),
        phase == Phase::Stopped ==> !Worker::drops(phase, event) && Worker::next_phase(phase, event)
            == Phase::Stopped,
        phase == Phase::Draining ==> Worker::next_phase(phase, event) == Phase::Draining
            || Worker::next_phase(phase, event) == Phase::Stopped,
{
}

/// An investigation keeps all that was recorded of its run, however the run ended; it has a
/// hypothesis exactly if the run came to one, and then that one; and evidence is called unverified
/// only where there is a hypothesis.
pub proof fn law_investigation_keeps_what_was_recorded(
    incident: IncidentId,
    model: String,
    run: RunResult,
    steps: Vec<Step>,
    usage: TokenUsage,
    duration_ms: u64,
    concluded: (Investigation, Option<String>),
)
    requires
        call_ensures(conclude, (incident, model, run, steps, usage, duration_ms), concluded),
    ensures
        concluded.0.transcript.steps == steps,
        concluded.0.transcript.usage == usage,
        concluded.0.transcript.incident == incident,
        concluded.0.transcript.model == model,
        concluded.0.transcript.duration_ms == duration_ms,
        concluded.0.hypothesis is Some <==> concluded.0.transcript.outcome == Outcome::Completed,
        concluded.0.hypothesis matches Some(hypothesis) ==> run is Completed && run->hypothesis
            == Ok::<Hypothesis, String>(hypothesis),
        run matches RunResult::Completed { requests, .. } ==> concluded.0.transcript.requests
            == requests,
        concluded.0.hypothesis is None ==> concluded.0.unverified_evidence@.len() == 0,
{
    law_completed_exactly_with_a_hypothesis(run);
    if concluded.0.hypothesis is None {
        assert(evidence_views(concluded.0.unverified_evidence@).len() == 0);
    }
}

/// Evidence of an investigation whose quote stands in the result of any of its tool calls, without
/// the white space around the quote, is not among its unverified evidence.
pub proof fn law_investigation_trusts_quotes_from_any_call(
    incident: IncidentId,
    model: String,
    run: RunResult,
    steps: Vec<Step>,
    usage: TokenUsage,
    duration_ms: u64,
    concluded: (Investigation, Option<String>),
    quote: (Seq<char>, Seq<char>, Seq<char>),
    at: int,
    around: (Seq<char>, Seq<char>),
    entry: int,
)
    requires
        call_ensures(conclude, (incident, model, run, steps, usage, duration_ms), concluded),
        forall|i: int| 0 <= i < quote.0.len() ==> is_white_space(#[trigger] quote.0[i]),
        forall|i: int| 0 <= i < quote.2.len() ==> is_white_space(#[trigger] quote.2[i]),
        quote.1.len() > 0,
        !is_white_space(quote.1[0]),
        !is_white_space(quote.1[quote.1.len() - 1]),
        0 <= at < steps@.len(),
        steps@[at] matches Step::ToolCall { result, .. } && result@ == around.0 + quote.1
            + around.1,
        0 <= entry < concluded.0.unverified_evidence@.len(),
    ensures
        concluded.0.unverified_evidence@[entry].quote@ != quote.0 + quote.1 + quote.2,
{
    let unverified = evidence_views(concluded.0.unverified_evidence@);
    let piece = concluded.0.unverified_evidence@[entry]@;
    assert(unverified[entry] == piece);
    assert(unverified.contains(piece));
    if piece.quote == quote.0 + quote.1 + quote.2 {
        law_quote_from_any_call_is_verified(
            evidence_of(concluded.0.hypothesis),
            piece,
            quote.0,
            quote.1,
            quote.2,
            steps@,
            at,
            around.0,
            around.1,
        );
    }
}

/// A worker that waits takes a request in hand; a shutdown, and a queue that is closed, end its
/// waiting. A request in hand is let go only when it is finished or at a shutdown.
pub proof fn law_waiting_ends_with_a_closed_queue(event: Event)
    ensures
        Worker::next_phase(Phase::Idle, event) == Phase::Draining <==> event == Event::Shutdown
            || event == Event::NoRequest,
        Worker::next_phase(Phase::Idle, event) == Phase::Busy <==> event == Event::Requested,
        Worker::next_phase(Phase::Busy, event) == Phase::Idle <==> event == Event::Finished,
        Worker::next_phase(Phase::Busy, event) == Phase::Draining <==> event == Event::Shutdown,
        Worker::next_phase(Phase::Draining, event) == Phase::Stopped <==> event
            == Event::NoRequest,
{
}

} // verus!
