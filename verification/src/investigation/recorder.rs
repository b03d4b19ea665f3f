//! The record of an investigation, kept while it runs, so that a run that dies midway leaves what
//! happened up to then.
use super::read_file::ToolErrorKind;
use super::{step_views, Step, TokenUsage, ToolFailure, ToolOutcome};
use crate::json::{compact_text, json_string, json_string_text, json_text, json_text_view};
use vstd::prelude::*;

verus! {

/// A piece of reasoning.
#[derive(Debug)]
pub enum ReasoningPart {
    Text(String),
    Summary(String),
    /// Not for reading: encrypted or redacted.
    Opaque,
}

/// A block of what the model said in a turn.
#[derive(Debug)]
pub enum TurnBlock {
    Text(String),
    Reasoning(Vec<ReasoningPart>),
    /// A tool call, which is recorded when it resolves, or an image.
    Other,
}

/// What a tool call came to.
#[derive(Clone, Copy, Debug)]
pub struct ToolReport {
    /// The kind of error, if it ended in one.
    pub error: Option<ToolErrorKind>,
    /// The kind of refusal, if the tool refused.
    pub refusal: Option<ToolErrorKind>,
    /// It succeeded.
    pub success: bool,
}

/// A tool call that has resolved.
#[derive(Debug)]
pub struct ToolEvent {
    pub name: String,
    /// The arguments as the model wrote them.
    pub args: String,
    /// What the model was shown.
    pub presented: String,
    pub report: ToolReport,
    /// Whether the tool says that it showed less than all, if it says so at all.
    pub truncated: Option<bool>,
}

/// The record.
#[derive(Debug)]
pub struct Recorder {
    steps: Vec<Step>,
    usage: TokenUsage,
}

/// The sum of two numbers of tokens.
pub open spec fn usage_sum(a: TokenUsage, b: TokenUsage) -> TokenUsage {
    TokenUsage {
        input_tokens: (a.input_tokens + b.input_tokens) as u64,
        cached_input_tokens: (a.cached_input_tokens + b.cached_input_tokens) as u64,
        cache_creation_input_tokens: (a.cache_creation_input_tokens
            + b.cache_creation_input_tokens) as u64,
        output_tokens: (a.output_tokens + b.output_tokens) as u64,
        total_tokens: (a.total_tokens + b.total_tokens) as u64,
    }
}

/// The sums fit in their fields.
pub open spec fn usage_fits(a: TokenUsage, b: TokenUsage) -> bool {
    &&& a.input_tokens + b.input_tokens <= u64::MAX
    &&& a.cached_input_tokens + b.cached_input_tokens <= u64::MAX
    &&& a.cache_creation_input_tokens + b.cache_creation_input_tokens <= u64::MAX
    &&& a.output_tokens + b.output_tokens <= u64::MAX
    &&& a.total_tokens + b.total_tokens <= u64::MAX
}

fn add_usage(total: &mut TokenUsage, usage: TokenUsage)
    requires
        usage_fits(*old(total), usage),
    ensures
        *final(total) == usage_sum(*old(total), usage),
{
    *total = TokenUsage {
        input_tokens: total.input_tokens + usage.input_tokens,
        cached_input_tokens: total.cached_input_tokens + usage.cached_input_tokens,
        cache_creation_input_tokens: total.cache_creation_input_tokens
            + usage.cache_creation_input_tokens,
        output_tokens: total.output_tokens + usage.output_tokens,
        total_tokens: total.total_tokens + usage.total_tokens,
    };
}

/// What can be read of the pieces of reasoning, in order.
pub open spec fn readable(parts: Seq<ReasoningPart>) -> Seq<Seq<char>>
    decreases parts.len(),
{
    if parts.len() == 0 {
        Seq::empty()
    } else {
        match parts.last() {
            ReasoningPart::Text(text) => readable(parts.drop_last()).push(text@),
            ReasoningPart::Summary(text) => readable(parts.drop_last()).push(text@),
            ReasoningPart::Opaque => readable(parts.drop_last()),
        }
    }
}

/// What can be read of a block, in order.
pub open spec fn thoughts_of(block: TurnBlock) -> Seq<Seq<char>> {
    match block {
        TurnBlock::Text(text) => seq![text@],
        TurnBlock::Reasoning(parts) => readable(parts@),
        TurnBlock::Other => Seq::empty(),
    }
}

/// The reasoning steps of a turn, for these thoughts.
pub open spec fn reasoning_steps(turn: usize, thoughts: Seq<Seq<char>>) -> Seq<Step<Seq<char>>> {
    Seq::new(thoughts.len(), |i: int| Step::Reasoning { turn, text: thoughts[i] })
}

/// The reasoning steps of a turn, for what can be read of these blocks.
pub open spec fn turn_steps(turn: usize, blocks: Seq<TurnBlock>) -> Seq<Step<Seq<char>>>
    decreases blocks.len(),
{
    if blocks.len() == 0 {
        Seq::empty()
    } else {
        turn_steps(turn, blocks.drop_last()) + reasoning_steps(turn, thoughts_of(blocks.last()))
    }
}

/// What can be read of a block, in order.
pub fn thoughts(block: &TurnBlock) -> (texts: Vec<&str>)
    ensures
        super::slices_view(texts@) == thoughts_of(*block),
{
    let mut texts: Vec<&str> = Vec::new();
    match block {
        TurnBlock::Text(text) => {
            texts.push(text.as_str());
            assert(super::slices_view(texts@) =~= seq![text@]);
        },
        TurnBlock::Reasoning(parts) => {
            let mut i: usize = 0;
            assert(parts@.take(0) =~= Seq::empty());
            assert(super::slices_view(texts@) =~= readable(parts@.take(0)));
            while i < parts.len()
                invariant
                    i <= parts.len(),
                    super::slices_view(texts@) == readable(parts@.take(i as int)),
                decreases parts.len() - i,
            {
                match &parts[i] {
                    ReasoningPart::Text(text) => texts.push(text.as_str()),
                    ReasoningPart::Summary(text) => texts.push(text.as_str()),
                    ReasoningPart::Opaque => {},
                }
                proof {
                    let next = parts@.take(i + 1);
                    assert(next.drop_last() =~= parts@.take(i as int));
                    assert(super::slices_view(texts@) =~= readable(next));
                }
                i = i + 1;
            }
            assert(parts@.take(i as int) =~= parts@);
        },
        TurnBlock::Other => {
            assert(super::slices_view(texts@) =~= Seq::empty());
        },
    }
    texts
}

/// The arguments of a tool call: the JSON that the model wrote, or, where it wrote none, what it
/// wrote as a JSON string.
pub open spec fn args_text(raw: Seq<char>, parsed: Result<Seq<char>, Seq<char>>) -> Seq<char> {
    match parsed {
        Ok(compact) => compact,
        Err(_) => json_string_text(raw),
    }
}

/// The arguments of a tool call, given what they were parsed to.
pub fn args_from(raw: &str, parsed: Result<String, String>) -> (args: String)
    ensures
        args@ == args_text(raw@, json_text_view(parsed)),
{
    match parsed {
        Ok(compact) => compact,
        Err(_) => json_string(raw),
    }
}

/// Arguments that are no JSON are kept verbatim rather than dropped.
pub fn args(raw: &str) -> (args: String)
    ensures
        args@ == args_text(raw@, json_text(raw@)),
{
    args_from(raw, compact_text(raw))
}

/// How a failure of this kind is recorded.
pub open spec fn failure_of(kind: ToolErrorKind) -> ToolFailure {
    match kind {
        ToolErrorKind::InvalidArgs => ToolFailure::InvalidArgs,
        ToolErrorKind::Timeout => ToolFailure::Timeout,
        ToolErrorKind::Cancelled => ToolFailure::Cancelled,
        ToolErrorKind::NotFound => ToolFailure::NotFound,
        ToolErrorKind::PermissionDenied => ToolFailure::PermissionDenied,
        ToolErrorKind::RateLimited => ToolFailure::RateLimited,
        ToolErrorKind::Provider => ToolFailure::Provider,
        ToolErrorKind::Network => ToolFailure::Network,
        ToolErrorKind::Other => ToolFailure::Other,
    }
}

fn failure(kind: ToolErrorKind) -> (failure: ToolFailure)
    ensures
        failure == failure_of(kind),
{
    match kind {
        ToolErrorKind::InvalidArgs => ToolFailure::InvalidArgs,
        ToolErrorKind::Timeout => ToolFailure::Timeout,
        ToolErrorKind::Cancelled => ToolFailure::Cancelled,
        ToolErrorKind::NotFound => ToolFailure::NotFound,
        ToolErrorKind::PermissionDenied => ToolFailure::PermissionDenied,
        ToolErrorKind::RateLimited => ToolFailure::RateLimited,
        ToolErrorKind::Provider => ToolFailure::Provider,
        ToolErrorKind::Network => ToolFailure::Network,
        ToolErrorKind::Other => ToolFailure::Other,
    }
}

/// The outcome of a tool call: an error counts first, then a refusal. A call that was skipped has
/// neither, and is no success.
pub open spec fn outcome_of(report: ToolReport) -> ToolOutcome {
    match (report.error, report.refusal) {
        (Some(kind), _) => ToolOutcome::Failed { kind: failure_of(kind) },
        (None, Some(kind)) => ToolOutcome::Failed { kind: failure_of(kind) },
        (None, None) => if report.success {
            ToolOutcome::Succeeded
        } else {
            ToolOutcome::Failed { kind: ToolFailure::Other }
        },
    }
}

/// The outcome of a tool call.
pub fn classify(report: &ToolReport) -> (outcome: ToolOutcome)
    ensures
        outcome == outcome_of(*report),
{
    if let Some(kind) = report.error {
        return ToolOutcome::Failed { kind: failure(kind) };
    }
    if let Some(kind) = report.refusal {
        return ToolOutcome::Failed { kind: failure(kind) };
    }
    if report.success {
        return ToolOutcome::Succeeded;
    }
    ToolOutcome::Failed { kind: ToolFailure::Other }
}

/// The step for a tool call: what the model was shown, and what really came of the call.
pub open spec fn tool_step_of(turn: usize, event: ToolEvent) -> Step<Seq<char>> {
    Step::ToolCall {
        turn,
        name: event.name@,
        args: args_text(event.args@, json_text(event.args@)),
        result: event.presented@,
        outcome: outcome_of(event.report),
        truncated: event.truncated == Some(true),
    }
}

/// The step for a tool call.
pub fn tool_step(turn: usize, event: &ToolEvent) -> (step: Step)
    ensures
        step@ == tool_step_of(turn, *event),
{
    let truncated: bool = match event.truncated {
        Some(truncated) => truncated,
        None => false,
    };
    Step::ToolCall {
        turn,
        name: event.name.clone(),
        args: args(event.args.as_str()),
        result: event.presented.clone(),
        outcome: classify(&event.report),
        truncated,
    }
}

/// The step for a tool call that could not be dispatched.
pub open spec fn invalid_step_of(
    turn: usize,
    name: Seq<char>,
    raw_args: Option<Seq<char>>,
) -> Step<Seq<char>> {
    Step::ToolCall {
        turn,
        name,
        args: match raw_args {
            Some(raw) => args_text(raw, json_text(raw)),
            None => "null"@,
        },
        result: "the model emitted a tool call that could not be dispatched"@,
        outcome: ToolOutcome::Failed { kind: ToolFailure::InvalidArgs },
        truncated: false,
    }
}

impl Recorder {
    /// What happened so far.
    pub closed spec fn steps(&self) -> Seq<Step<Seq<char>>> {
        step_views(self.steps@)
    }

    /// The tokens used so far.
    pub closed spec fn usage(&self) -> TokenUsage {
        self.usage
    }

    /// Nothing has happened.
    #[must_use]
    pub fn new() -> (recorder: Self)
        ensures
            recorder.steps() == Seq::<Step<Seq<char>>>::empty(),
            recorder.usage() == usage_none(),
    {
        let recorder = Recorder { steps: Vec::new(), usage: TokenUsage::default() };
        assert(recorder.steps() =~= Seq::<Step<Seq<char>>>::empty());
        recorder
    }

    /// Whether the tokens of one more turn can be counted.
    pub fn fits(&self, usage: TokenUsage) -> (fits: bool)
        ensures
            fits == usage_fits(self.usage(), usage),
    {
        usage.input_tokens <= u64::MAX - self.usage.input_tokens && usage.cached_input_tokens
            <= u64::MAX - self.usage.cached_input_tokens && usage.cache_creation_input_tokens
            <= u64::MAX - self.usage.cache_creation_input_tokens && usage.output_tokens <= u64::MAX
            - self.usage.output_tokens && usage.total_tokens <= u64::MAX - self.usage.total_tokens
    }

    /// Records a step.
    pub fn push(&mut self, step: Step)
        ensures
            final(self).steps() == old(self).steps().push(step@),
            final(self).usage() == old(self).usage(),
    {
        self.steps.push(step);
        assert(self.steps() =~= old(self).steps().push(step@));
    }

    /// Records a turn of the model: the tokens it used, and each thing it said that can be read, as
    /// a step of that turn.
    pub fn record_turn(&mut self, turn: usize, blocks: &Vec<TurnBlock>, usage: TokenUsage)
        requires
            usage_fits(old(self).usage(), usage),
        ensures
            final(self).steps() == old(self).steps() + turn_steps(turn, blocks@),
            final(self).usage() == usage_sum(old(self).usage(), usage),
    {
        let ghost before = self.steps();
        let ghost total = usage_sum(self.usage(), usage);
        add_usage(&mut self.usage, usage);
        let mut i: usize = 0;
        assert(blocks@.take(0) =~= Seq::empty());
        assert(self.steps() =~= before + turn_steps(turn, blocks@.take(0)));
        while i < blocks.len()
            invariant
                i <= blocks.len(),
                self.usage() == total,
                self.steps() == before + turn_steps(turn, blocks@.take(i as int)),
            decreases blocks.len() - i,
        {
            let texts: Vec<&str> = thoughts(&blocks[i]);
            let ghost said = thoughts_of(blocks[i as int]);
            let ghost start = self.steps();
            let mut k: usize = 0;
            assert(start + reasoning_steps(turn, said.take(0)) =~= start);
            while k < texts.len()
                invariant
                    k <= texts.len(),
                    super::slices_view(texts@) == said,
                    self.usage() == total,
                    self.steps() == start + reasoning_steps(turn, said.take(k as int)),
                decreases texts.len() - k,
            {
                assert(said[k as int] == texts[k as int]@);
                self.push(Step::Reasoning { turn, text: texts[k].to_owned() });
                assert(self.steps() =~= start + reasoning_steps(turn, said.take(k + 1)));
                k = k + 1;
            }
            proof {
                assert(said.take(k as int) =~= said);
                let next = blocks@.take(i + 1);
                assert(next.drop_last() =~= blocks@.take(i as int));
                assert(self.steps() =~= before + turn_steps(turn, next));
            }
            i = i + 1;
        }
        assert(blocks@.take(i as int) =~= blocks@);
    }

    /// Records a tool call that has resolved.
    pub fn record_tool_result(&mut self, turn: usize, event: &ToolEvent)
        ensures
            final(self).steps() == old(self).steps().push(tool_step_of(turn, *event)),
            final(self).usage() == old(self).usage(),
    {
        self.push(tool_step(turn, event));
    }

    /// Records a tool call that could not be dispatched.
    pub fn record_invalid_tool_call(&mut self, turn: usize, name: &str, raw_args: Option<&str>)
        ensures
            final(self).steps() == old(self).steps().push(
                invalid_step_of(turn, name@, super::option_slice(raw_args)),
            ),
            final(self).usage() == old(self).usage(),
    {
        let args: String = match raw_args {
            Some(raw) => self::args(raw),
            None => "null".to_owned(),
        };
        self.push(
            Step::ToolCall {
                turn,
                name: name.to_owned(),
                args,
                result: "the model emitted a tool call that could not be dispatched".to_owned(),
                outcome: ToolOutcome::Failed { kind: ToolFailure::InvalidArgs },
                truncated: false,
            },
        );
    }

    /// Hands the record out.
    #[must_use]
    pub fn drain(self) -> (record: (Vec<Step>, TokenUsage))
        ensures
            step_views(record.0@) == self.steps(),
            record.1 == self.usage(),
    {
        (self.steps, self.usage)
    }
}

/// No tokens.
pub open spec fn usage_none() -> TokenUsage {
    TokenUsage {
        input_tokens: 0,
        cached_input_tokens: 0,
        cache_creation_input_tokens: 0,
        output_tokens: 0,
        total_tokens: 0,
    }
}

/// The tokens of a turn are added to those before it, each kind to its own: nothing is lost, and the
/// order of the turns does not matter.
pub proof fn law_usage_adds_up(a: TokenUsage, b: TokenUsage)
    requires
        a.input_tokens + b.input_tokens <= u64::MAX,
        a.cached_input_tokens + b.cached_input_tokens <= u64::MAX,
        a.cache_creation_input_tokens + b.cache_creation_input_tokens <= u64::MAX,
        a.output_tokens + b.output_tokens <= u64::MAX,
        a.total_tokens + b.total_tokens <= u64::MAX,
    ensures
        usage_fits(a, b),
        ({
            let sum = usage_sum(a, b);
            &&& sum.input_tokens == a.input_tokens + b.input_tokens
            &&& sum.cached_input_tokens == a.cached_input_tokens + b.cached_input_tokens
            &&& sum.cache_creation_input_tokens == a.cache_creation_input_tokens
                + b.cache_creation_input_tokens
            &&& sum.output_tokens == a.output_tokens + b.output_tokens
            &&& sum.total_tokens == a.total_tokens + b.total_tokens
            &&& sum == usage_sum(b, a)
        }),
        usage_sum(a, usage_none()) == a,
{
}

/// What can be read of reasoning are its texts and its summaries, each as it stands and in order;
/// what is not for reading is left out.
pub proof fn law_reasoning_is_read_piece_by_piece(
    first: Seq<ReasoningPart>,
    second: Seq<ReasoningPart>,
    part: ReasoningPart,
)
    ensures
        readable(first + second) == readable(first) + readable(second),
        part matches ReasoningPart::Text(text) ==> readable(seq![part]) == seq![text@],
        part matches ReasoningPart::Summary(text) ==> readable(seq![part]) == seq![text@],
        part is Opaque ==> readable(seq![part]).len() == 0,
    decreases second.len(),
{
    if second.len() == 0 {
        assert(first + second =~= first);
        assert(readable(first) + readable(second) =~= readable(first));
    } else {
        law_reasoning_is_read_piece_by_piece(first, second.drop_last(), part);
        assert((first + second).drop_last() =~= first + second.drop_last());
        assert((first + second).last() == second.last());
        assert(readable(first + second) =~= readable(first) + readable(second));
    }
    assert(seq![part].drop_last() =~= Seq::empty());
    assert(readable(seq![part].drop_last()) =~= Seq::empty());
    match part {
        ReasoningPart::Text(text) => {
            assert(readable(seq![part]) =~= seq![text@]);
        },
        ReasoningPart::Summary(text) => {
            assert(readable(seq![part]) =~= seq![text@]);
        },
        ReasoningPart::Opaque => {},
    }
}

/// The steps of a turn are those of its blocks, in order, and each is a thought of that turn: a text
/// gives one step with that text, reasoning one for each piece that can be read, and a tool call
/// none.
pub proof fn law_turn_is_recorded_block_by_block(
    turn: usize,
    first: Seq<TurnBlock>,
    second: Seq<TurnBlock>,
    block: TurnBlock,
)
    ensures
        turn_steps(turn, first + second) == turn_steps(turn, first) + turn_steps(turn, second),
        block matches TurnBlock::Text(text) ==> turn_steps(turn, seq![block]) == seq![
            Step::<Seq<char>>::Reasoning { turn, text: text@ },
        ],
        block matches TurnBlock::Reasoning(parts) ==> turn_steps(turn, seq![block]).len()
            == readable(parts@).len() && forall|i: int|
            0 <= i < readable(parts@).len() ==> #[trigger] turn_steps(turn, seq![block])[i]
                == (Step::<Seq<char>>::Reasoning { turn, text: readable(parts@)[i] }),
        block is Other ==> turn_steps(turn, seq![block]).len() == 0,
    decreases second.len(),
{
    if second.len() == 0 {
        assert(first + second =~= first);
        assert(turn_steps(turn, first) + turn_steps(turn, second) =~= turn_steps(turn, first));
    } else {
        law_turn_is_recorded_block_by_block(turn, first, second.drop_last(), block);
        assert((first + second).drop_last() =~= first + second.drop_last());
        assert((first + second).last() == second.last());
        assert(turn_steps(turn, first + second) =~= turn_steps(turn, first) + turn_steps(
            turn,
            second,
        ));
    }
    let alone = seq![block];
    assert(alone.drop_last() =~= Seq::empty());
    assert(turn_steps(turn, alone.drop_last()) =~= Seq::empty());
    assert(turn_steps(turn, alone) =~= reasoning_steps(turn, thoughts_of(block)));
    if let TurnBlock::Text(text) = block {
        assert(turn_steps(turn, alone) =~= seq![
            Step::<Seq<char>>::Reasoning { turn, text: text@ },
        ]);
    }
}

/// A tool call counts as a success exactly if it ended without an error, was not refused, and says
/// that it succeeded. An error counts before a refusal, and failures of different kinds are recorded
/// as different ones.
pub proof fn law_outcome_tells_what_came_of_the_call(report: ToolReport, other: ToolReport)
    ensures
        outcome_of(report) == ToolOutcome::Succeeded <==> report.error is None
            && report.refusal is None && report.success,
        report.error is Some && report.error == other.error ==> outcome_of(report) == outcome_of(
            other,
        ),
        report.error is Some && other.error is Some && report.error != other.error ==> outcome_of(
            report,
        ) != outcome_of(other),
        report.error is None && other.error is None && report.refusal is Some
            && other.refusal is Some && report.refusal != other.refusal ==> outcome_of(report)
            != outcome_of(other),
        report.error is None && report.refusal is None && !report.success ==> outcome_of(report)
            == (ToolOutcome::Failed { kind: ToolFailure::Other }),
{
}

/// The step for a tool call holds what the model was shown, under the name that it called; it says
/// that less than all was shown exactly if the tool says so. Arguments that are JSON are recorded as
/// that JSON, and others as a string, so that nothing is lost.
pub proof fn law_tool_step_tells_what_was_shown(turn: usize, event: ToolEvent)
    ensures
        tool_step_of(turn, event) matches Step::ToolCall {
            turn: at,
            name,
            args,
            result,
            outcome,
            truncated,
        } && at == turn && name == event.name@ && result == event.presented@ && (truncated
            <==> event.truncated == Some(true)) && (outcome == ToolOutcome::Succeeded
            <==> event.report.error is None && event.report.refusal is None
            && event.report.success) && (json_text(event.args@) matches Ok(compact) ==> args
            == compact) && (json_text(event.args@) is Err ==> args == json_string_text(
            event.args@,
        )),
{
}

} // verus!
