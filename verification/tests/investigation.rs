use oncall_ai::alert::{Alert, AlertStatus};
use oncall_ai::incident::IncidentId;
use oncall_ai::investigation::worker::{
    capped_millis, conclude, invalid_tool_feedback, outcome_message, turns, unverified, Event,
    Phase, RunResult, Worker, INVALID_TOOL_CALL_RETRIES,
};
use oncall_ai::investigation::{
    render_prompt, Confidence, Evidence, Hypothesis, InvestigationRequest, Outcome, Step,
    TokenUsage, ToolFailure, ToolOutcome, Transcript, INVESTIGATION_PREAMBLE,
};
use oncall_ai::text_map::Labels;
use oncall_ai::time::Timestamp;
use oncall_ai::triage::{Severity, TriageResult};

const DB_RS: &str =
    "// Pool sizing is documented in config/pool.toml.\nconst MAX_POOL_SIZE: usize = 4;\n";
const POOL_LINE: &str = "const MAX_POOL_SIZE: usize = 4;";

fn reasoning(turn: usize, text: &str) -> Step {
    Step::Reasoning { turn, text: text.to_owned() }
}

fn tool_call(turn: usize, path: &str, result: &str, outcome: ToolOutcome) -> Step {
    Step::ToolCall {
        turn,
        name: "read_file".to_owned(),
        args: format!("{{\"path\":\"{path}\"}}"),
        result: result.to_owned(),
        outcome,
        truncated: false,
    }
}

fn no_usage() -> TokenUsage {
    TokenUsage::default()
}

fn sample() -> Transcript {
    Transcript {
        incident: IncidentId::new(),
        model: "ollama:qwen3:8b".to_owned(),
        outcome: Outcome::Completed,
        usage: TokenUsage {
            input_tokens: 1_024,
            cached_input_tokens: 512,
            cache_creation_input_tokens: 128,
            output_tokens: 256,
            total_tokens: 1_920,
        },
        requests: 2,
        duration_ms: 4_200,
        steps: vec![
            reasoning(1, "The alert names checkout-api; read its timeout config."),
            tool_call(
                1,
                "services/checkout/config.yaml",
                "no such file under repo_root; use a path relative to the repo root",
                ToolOutcome::Failed { kind: ToolFailure::NotFound },
            ),
            tool_call(
                1,
                "services/checkout/pool.toml",
                "max_connections = 4\n",
                ToolOutcome::Succeeded,
            ),
        ],
    }
}

fn hypothesis(quotes: &[&str]) -> Hypothesis {
    Hypothesis {
        summary: "The pool cap is below the documented minimum.".to_owned(),
        confidence: Confidence::High,
        evidence: quotes
            .iter()
            .map(|quote| Evidence {
                tool: "read_file".to_owned(),
                path: "db.rs".to_owned(),
                quote: (*quote).to_owned(),
            })
            .collect(),
        affected_components: vec!["checkout".to_owned()],
    }
}

fn quotes(evidence: &[Evidence]) -> Vec<&str> {
    evidence.iter().map(|entry| entry.quote.as_str()).collect()
}

/// The prompt carries the parsed alert and what triage made of it. The raw payload is deliberately
/// not in it: it is the source's wire format, not anything the investigation reasons about.
#[test]
fn rendered_prompt_carries_alert_and_triage_but_no_raw_payload() {
    let mut labels = Labels::new();
    labels.insert("alertname".to_owned(), "CheckoutDbLatency".to_owned());
    let request = InvestigationRequest {
        incident: IncidentId::new(),
        alert: Alert {
            source: "grafana",
            source_alert_id: "test-alert-1".to_owned(),
            labels,
            annotations: Labels::new(),
            starts_at: Timestamp::new(0, 0).expect("valid time"),
            status: AlertStatus::Firing,
            raw_payload: r#"{"secret":"raw-payload-marker"}"#.to_owned(),
        },
        triage: TriageResult {
            severity: Severity::P2,
            service: Some("checkout".to_owned()),
            tags: vec!["database".to_owned()],
            summary: "Checkout DB latency is elevated.".to_owned(),
        },
    };

    let prompt = render_prompt(&request, Some("checkout-api"));

    assert!(
        !prompt.contains("raw-payload-marker"),
        "raw payloads must not reach the model: {prompt}"
    );
    for expected in [
        "repository: checkout-api",
        "alertname: CheckoutDbLatency",
        "  severity: P2",
        "  service: checkout",
        "  tags: database",
        "  summary: Checkout DB latency is elevated.",
    ] {
        assert!(prompt.contains(expected), "missing {expected:?}: {prompt}");
    }
    assert_eq!(
        prompt,
        "repository: checkout-api\nsource: grafana\nstatus: firing\nstarted: 1970-01-01 00:00:00 \
         UTC\nlabels:\n  alertname: CheckoutDbLatency\ntriage:\n  severity: P2\n  service: \
         checkout\n  tags: database\n  summary: Checkout DB latency is elevated.\n"
    );

    let bare = InvestigationRequest {
        triage: TriageResult {
            severity: Severity::Unknown,
            service: None,
            tags: Vec::new(),
            summary: "?".to_owned(),
        },
        ..request
    };
    let prompt = render_prompt(&bare, None);
    assert!(prompt.starts_with("source: grafana\n"), "{prompt}");
    assert!(
        prompt.ends_with("triage:\n  severity: Unknown\n  service: unidentified\n  summary: ?\n"),
        "{prompt}"
    );
}

#[test]
fn tool_results_are_the_tool_call_outputs_in_order() {
    let transcript = sample();
    let results: Vec<&str> = transcript.tool_results();
    assert_eq!(
        results,
        [
            "no such file under repo_root; use a path relative to the repo root",
            "max_connections = 4\n",
        ]
    );
}

#[test]
fn records_steps_in_order_with_turn_numbers() {
    let steps = vec![
        reasoning(1, "reading the pool config"),
        tool_call(1, "db.rs", DB_RS, ToolOutcome::Succeeded),
        reasoning(2, "that cap is the cause"),
    ];
    let run = RunResult::Completed { requests: 2, hypothesis: Ok(hypothesis(&[POOL_LINE])) };
    let usage = TokenUsage { total_tokens: 42, ..no_usage() };
    let (investigated, cause) =
        conclude(IncidentId(5), "ollama:test-model".to_owned(), run, steps, usage, 17);

    assert_eq!(investigated.transcript.incident, IncidentId(5));
    assert_eq!(investigated.transcript.model, "ollama:test-model");
    assert_eq!(investigated.transcript.outcome, Outcome::Completed);
    assert!(investigated.hypothesis.is_some());
    assert_eq!(investigated.transcript.steps.len(), 3);
    assert_eq!(investigated.transcript.requests, 2);
    assert_eq!(investigated.transcript.usage.total_tokens, 42);
    assert_eq!(investigated.transcript.duration_ms, 17);
    assert!(investigated.unverified_evidence.is_empty());
    assert_eq!(cause, None);
}

/// Runs that did not complete keep what was recorded of them.
fn abandoned(run: RunResult) -> (Outcome, Option<String>, usize, usize) {
    let steps = vec![
        reasoning(1, "first look"),
        tool_call(1, "db.rs", DB_RS, ToolOutcome::Succeeded),
        reasoning(2, "second look"),
    ];
    let (investigated, cause) =
        conclude(IncidentId(5), "ollama:m".to_owned(), run, steps, no_usage(), 1);
    assert!(investigated.hypothesis.is_none());
    assert!(investigated.unverified_evidence.is_empty());
    let transcript = investigated.transcript;
    (transcript.outcome, cause, transcript.requests, transcript.steps.len())
}

#[test]
fn max_turns_exhaustion_keeps_the_transcript() {
    let run = RunResult::MaxTurns { message: "out of turns".to_owned() };
    assert_eq!(
        abandoned(run),
        (Outcome::MaxTurnsExhausted, Some("out of turns".to_owned()), 2, 3)
    );
}

#[test]
fn mid_run_failure_keeps_a_partial_transcript() {
    let run = RunResult::Failed { message: "the provider fell over".to_owned() };
    assert_eq!(
        abandoned(run),
        (Outcome::Failed, Some("the provider fell over".to_owned()), 2, 3)
    );
}

#[test]
fn timeout_keeps_the_transcript() {
    assert_eq!(abandoned(RunResult::TimedOut), (Outcome::TimedOut, None, 2, 3));
}

#[test]
fn unparseable_output_is_a_failed_investigation() {
    let run = RunResult::Completed { requests: 7, hypothesis: Err("expected value".to_owned()) };
    assert_eq!(
        abandoned(run),
        (
            Outcome::Failed,
            Some("output is not a Hypothesis: expected value".to_owned()),
            7,
            3
        )
    );
}

#[test]
fn unverified_evidence_quote_is_flagged() {
    let invented = "const MAX_POOL_SIZE: usize = 64;";
    let steps = vec![tool_call(1, "db.rs", DB_RS, ToolOutcome::Succeeded)];
    let run =
        RunResult::Completed { requests: 2, hypothesis: Ok(hypothesis(&[POOL_LINE, invented])) };
    let (investigated, _) =
        conclude(IncidentId(5), "ollama:m".to_owned(), run, steps, no_usage(), 1);

    assert_eq!(investigated.transcript.outcome, Outcome::Completed);
    let concluded = investigated.hypothesis.expect("flagged, not discarded");
    assert_eq!(quotes(&concluded.evidence), [POOL_LINE, invented], "nor edited");
    assert_eq!(
        quotes(&investigated.unverified_evidence),
        [invented],
        "only the quote no tool result contains is flagged"
    );
}

#[test]
fn white_space_around_a_quote_does_not_count() {
    let transcript = Transcript {
        steps: vec![
            reasoning(1, "thinking of const OTHER: usize = 9;"),
            tool_call(1, "db.rs", DB_RS, ToolOutcome::Succeeded),
        ],
        ..sample()
    };
    let padded = format!("  {POOL_LINE}\n\t");
    let claimed =
        hypothesis(&[padded.as_str(), "", " \u{2003}\n", "const OTHER: usize = 9;", POOL_LINE]);
    let flagged = unverified(&claimed, &transcript);
    assert_eq!(
        quotes(&flagged),
        ["", " \u{2003}\n", "const OTHER: usize = 9;"],
        "blank quotes and what only the model said are no evidence"
    );
    assert_eq!(flagged[2].tool, "read_file");
    assert_eq!(flagged[2].path, "db.rs");
}

#[test]
fn the_highest_turn_tells_how_many_there_were() {
    assert_eq!(turns(&Vec::new()), 0);
    assert_eq!(turns(&vec![reasoning(3, "a"), reasoning(5, "b"), reasoning(4, "c")]), 5);
}

#[test]
fn a_tool_that_does_not_exist_is_named_with_those_that_do() {
    let tools = vec!["read_file".to_owned(), "final_result".to_owned()];
    assert_eq!(
        invalid_tool_feedback("reed_file", &tools),
        "there is no tool named `reed_file`; call one of: read_file, final_result"
    );
    assert_eq!(INVALID_TOOL_CALL_RETRIES, 2);
}

#[test]
fn shutdown_before_any_request_drains_the_queue() {
    let mut worker = Worker::new();
    worker.step(Event::Shutdown);
    assert_eq!(worker.phase, Phase::Draining);
    worker.step(Event::Requested);
    worker.step(Event::Requested);
    worker.step(Event::NoRequest);
    assert_eq!(worker.phase, Phase::Stopped);
    assert_eq!(worker.dropped, 2, "everything queued counts as dropped");
}

#[test]
fn shutdown_drops_the_investigation_in_hand() {
    let mut worker = Worker::new();
    worker.step(Event::Requested);
    worker.step(Event::Finished);
    assert_eq!(worker.phase, Phase::Idle);
    worker.step(Event::Requested);
    assert_eq!(worker.phase, Phase::Busy);
    worker.step(Event::Shutdown);
    worker.step(Event::NoRequest);
    assert_eq!(worker.dropped, 1);
    assert_eq!(worker.phase, Phase::Stopped);
}

#[test]
fn a_closed_empty_queue_of_investigations_drops_nothing() {
    let mut worker = Worker::new();
    worker.step(Event::NoRequest);
    worker.step(Event::NoRequest);
    assert_eq!(worker, Worker { phase: Phase::Stopped, dropped: 0 });
}

#[test]
fn durations_and_outcomes_are_logged() {
    assert_eq!(capped_millis(4_200), 4_200);
    assert_eq!(capped_millis(u128::from(u64::MAX)), u64::MAX);
    assert_eq!(capped_millis(u128::MAX), u64::MAX);
    assert_eq!(outcome_message(Outcome::Completed), "incident investigated");
    for outcome in [Outcome::MaxTurnsExhausted, Outcome::TimedOut, Outcome::Failed] {
        assert_eq!(
            outcome_message(outcome),
            "investigation abandoned; incident stays uninvestigated"
        );
    }
}

#[test]
fn the_preamble_states_the_lookup_time_containment_rule() {
    assert!(INVESTIGATION_PREAMBLE.contains("paths that resolve outside it are rejected"));
    assert!(!INVESTIGATION_PREAMBLE.contains("nothing outside it can be read"));
}
