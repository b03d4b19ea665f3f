use oncall_ai::investigation::read_file::ToolErrorKind;
use oncall_ai::investigation::recorder::{
    args, args_from, thoughts, tool_step, ReasoningPart, Recorder, ToolEvent, ToolReport, TurnBlock,
};
use oncall_ai::investigation::{Step, TokenUsage, ToolFailure, ToolOutcome};

fn tokens(input: u64, output: u64) -> TokenUsage {
    TokenUsage {
        input_tokens: input,
        output_tokens: output,
        total_tokens: input + output,
        cached_input_tokens: 1,
        cache_creation_input_tokens: 2,
    }
}

fn success() -> ToolReport {
    ToolReport { error: None, refusal: None, success: true }
}

fn failed(kind: ToolErrorKind) -> ToolReport {
    ToolReport { error: Some(kind), refusal: None, success: false }
}

fn event(report: ToolReport, presented: &str, args: &str, truncated: Option<bool>) -> ToolEvent {
    ToolEvent {
        name: "read_file".to_owned(),
        args: args.to_owned(),
        presented: presented.to_owned(),
        report,
        truncated,
    }
}

fn recorded(report: ToolReport, args: &str) -> Step {
    tool_step(1, &event(report, "shown", args, None))
}

/// The parts of a tool step: turn, name, arguments, result, outcome and whether it was cut.
fn parts(step: &Step) -> (usize, &str, &str, &str, ToolOutcome, bool) {
    match step {
        Step::ToolCall { turn, name, args, result, outcome, truncated } => {
            (*turn, name.as_str(), args.as_str(), result.as_str(), *outcome, *truncated)
        }
        Step::Reasoning { .. } => panic!("not a tool call"),
    }
}

fn outcome_of(step: &Step) -> ToolOutcome {
    parts(step).4
}

fn reasoning(steps: &[Step]) -> Vec<(usize, &str)> {
    steps
        .iter()
        .map(|step| match step {
            Step::Reasoning { turn, text } => (*turn, text.as_str()),
            Step::ToolCall { .. } => panic!("not reasoning"),
        })
        .collect()
}

/// The steps that one turn of these blocks leaves.
fn turn(turn: usize, blocks: Vec<TurnBlock>) -> Vec<Step> {
    let mut recorder = Recorder::new();
    recorder.record_turn(turn, &blocks, TokenUsage::default());
    recorder.drain().0
}

#[test]
fn every_rig_failure_kind_maps_to_a_transcript_kind() {
    let cases = [
        (ToolErrorKind::InvalidArgs, ToolFailure::InvalidArgs),
        (ToolErrorKind::Timeout, ToolFailure::Timeout),
        (ToolErrorKind::Cancelled, ToolFailure::Cancelled),
        (ToolErrorKind::NotFound, ToolFailure::NotFound),
        (ToolErrorKind::PermissionDenied, ToolFailure::PermissionDenied),
        (ToolErrorKind::RateLimited, ToolFailure::RateLimited),
        (ToolErrorKind::Provider, ToolFailure::Provider),
        (ToolErrorKind::Network, ToolFailure::Network),
        (ToolErrorKind::Other, ToolFailure::Other),
    ];
    for (kind, expected) in cases {
        assert_eq!(
            outcome_of(&recorded(failed(kind), "{}")),
            ToolOutcome::Failed { kind: expected },
            "{kind:?} must be recorded as {expected:?}"
        );
    }
}

#[test]
fn a_successful_result_is_recorded_as_succeeded() {
    assert_eq!(outcome_of(&recorded(success(), "{}")), ToolOutcome::Succeeded);
}

/// A refusal is no error of the tool, and no success either.
#[test]
fn a_refusal_is_recorded_as_a_failure() {
    let report = ToolReport {
        error: None,
        refusal: Some(ToolErrorKind::PermissionDenied),
        success: false,
    };
    assert_eq!(
        outcome_of(&recorded(report, "{}")),
        ToolOutcome::Failed { kind: ToolFailure::PermissionDenied }
    );
}

/// A skipped call never ran, so it has no error and is not a success.
#[test]
fn a_skipped_call_is_not_recorded_as_a_success() {
    let report = ToolReport { error: None, refusal: None, success: false };
    assert_eq!(
        outcome_of(&recorded(report, "{}")),
        ToolOutcome::Failed { kind: ToolFailure::Other }
    );
}

/// The presentation is what the model read; the outcome comes from the raw result, which no
/// rewrite can touch.
#[test]
fn a_step_records_what_the_model_saw_and_the_raw_outcome() {
    let event = event(
        failed(ToolErrorKind::NotFound),
        "rewritten by another hook",
        r#"{"path":"a.txt"}"#,
        None,
    );
    assert_eq!(
        parts(&tool_step(4, &event)),
        (
            4,
            "read_file",
            r#"{"path":"a.txt"}"#,
            "rewritten by another hook",
            ToolOutcome::Failed { kind: ToolFailure::NotFound },
            false
        )
    );
}

#[test]
fn tool_args_that_are_not_json_are_kept_verbatim() {
    let step = tool_step(1, &event(success(), "ok", "path=a.txt", None));
    assert_eq!(
        parts(&step),
        (1, "read_file", "\"path=a.txt\"", "ok", ToolOutcome::Succeeded, false)
    );
    assert_eq!(args("say \"hi\""), r#""say \"hi\"""#);
}

#[test]
fn tool_args_that_are_json_are_kept_compact() {
    assert_eq!(args(" { \"path\" : [ 1, null ] } "), r#"{"path":[1,null]}"#);
    assert_eq!(args_from("raw", Ok("{}".to_owned())), "{}");
    assert_eq!(args_from("raw", Err("no".to_owned())), "\"raw\"");
}

/// The transcript must state that the model saw only part of the file, on the tool's word rather
/// than on what its output happens to say.
#[test]
fn a_truncated_read_is_flagged_from_result_metadata() {
    let step = tool_step(1, &event(success(), "max_connections = 4\n", "{}", Some(true)));
    assert_eq!(
        parts(&step),
        (1, "read_file", "{}", "max_connections = 4\n", ToolOutcome::Succeeded, true)
    );
}

/// A file whose own contents end in the notice was not truncated.
#[test]
fn output_that_merely_looks_truncated_is_not_flagged() {
    let shown = "log line\n[truncated: first 8 of 99 bytes shown]";
    let step = tool_step(1, &event(success(), shown, "{}", Some(false)));
    assert_eq!(
        parts(&step),
        (1, "read_file", "{}", shown, ToolOutcome::Succeeded, false)
    );
}

#[test]
fn every_text_block_becomes_a_reasoning_step_for_its_turn() {
    let steps = turn(
        3,
        vec![
            TurnBlock::Text("first thought".to_owned()),
            TurnBlock::Text("second thought".to_owned()),
        ],
    );
    assert_eq!(reasoning(&steps), [(3, "first thought"), (3, "second thought")]);
}

/// A thinking model's output comes in reasoning blocks; reading only text would empty the
/// transcript's reasoning half.
#[test]
fn a_thinking_block_becomes_a_reasoning_step() {
    let steps = turn(
        2,
        vec![
            TurnBlock::Reasoning(vec![ReasoningPart::Text(
                "the alert names checkout-api".to_owned(),
            )]),
            TurnBlock::Text("reading its pool config".to_owned()),
        ],
    );
    assert_eq!(
        reasoning(&steps),
        [(2, "the alert names checkout-api"), (2, "reading its pool config")]
    );
}

/// An encrypted payload is not readable reasoning; recording it would put an opaque blob where an
/// auditor expects prose.
#[test]
fn an_opaque_reasoning_payload_is_not_recorded() {
    let steps = turn(1, vec![TurnBlock::Reasoning(vec![ReasoningPart::Opaque])]);
    assert!(steps.is_empty(), "got: {steps:?}");
    let mixed = TurnBlock::Reasoning(vec![
        ReasoningPart::Summary("in short".to_owned()),
        ReasoningPart::Opaque,
        ReasoningPart::Text("at length".to_owned()),
    ]);
    assert_eq!(thoughts(&mixed), ["in short", "at length"]);
}

/// A tool call is recorded when it resolves, not when it is requested.
#[test]
fn a_requested_tool_call_is_not_reasoning() {
    let steps =
        turn(1, vec![TurnBlock::Text("reading the config".to_owned()), TurnBlock::Other]);
    assert_eq!(reasoning(&steps), [(1, "reading the config")]);
}

#[test]
fn a_finished_turn_is_recorded_and_accepted() {
    let mut recorder = Recorder::new();
    let blocks = vec![TurnBlock::Text("thinking".to_owned())];
    for usage in [tokens(10, 5), tokens(20, 7)] {
        assert!(recorder.fits(usage));
        recorder.record_turn(1, &blocks, usage);
    }
    assert!(!recorder.fits(TokenUsage { input_tokens: u64::MAX, ..TokenUsage::default() }));
    assert!(recorder.fits(TokenUsage { input_tokens: u64::MAX - 30, ..TokenUsage::default() }));
    let (steps, total) = recorder.drain();
    assert_eq!(steps.len(), 2);
    assert_eq!(
        total,
        TokenUsage {
            input_tokens: 30,
            cached_input_tokens: 2,
            cache_creation_input_tokens: 4,
            output_tokens: 12,
            total_tokens: 42,
        }
    );
}

#[test]
fn a_tool_result_is_recorded_and_left_as_the_model_saw_it() {
    let mut recorder = Recorder::new();
    let event = event(success(), "max_connections = 4\n", r#"{"a":1}"#, None);
    recorder.record_tool_result(2, &event);
    let (steps, usage) = recorder.drain();
    assert_eq!(steps.len(), 1);
    assert_eq!(outcome_of(&steps[0]), ToolOutcome::Succeeded);
    assert_eq!(parts(&steps[0]).3, "max_connections = 4\n");
    assert_eq!(usage, TokenUsage::default());
}

#[test]
fn an_invalid_tool_call_is_recorded_and_left_to_the_runner() {
    let mut recorder = Recorder::new();
    recorder.record_invalid_tool_call(6, "reed_file", Some(r#"{"path":"a.txt"}"#));
    recorder.record_invalid_tool_call(7, "reed_file", None);
    let (steps, _) = recorder.drain();
    let result = "the model emitted a tool call that could not be dispatched";
    let outcome = ToolOutcome::Failed { kind: ToolFailure::InvalidArgs };
    assert_eq!(
        parts(&steps[0]),
        (6, "reed_file", r#"{"path":"a.txt"}"#, result, outcome, false),
        "the fumbled turn must be visible"
    );
    assert_eq!(parts(&steps[1]), (7, "reed_file", "null", result, outcome, false));
}

/// What preserves a partial transcript: the record holds every step up to the moment it is drained.
#[test]
fn draining_yields_what_was_recorded_before_the_recorder_was_dropped() {
    let mut recorder = Recorder::new();
    recorder.push(Step::Reasoning { turn: 1, text: "thinking".to_owned() });
    let (steps, _) = recorder.drain();
    assert_eq!(reasoning(&steps), [(1, "thinking")]);
}
