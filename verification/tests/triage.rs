use oncall_ai::alert::{Alert, AlertStatus};
use oncall_ai::config::{ModelProvider, ModelSpec, TriageConfig};
use oncall_ai::incident::IncidentId;
use oncall_ai::retry::{Backoff, Delay};
use oncall_ai::text_map::Labels;
use oncall_ai::time::Timestamp;
use oncall_ai::triage::triager::{
    answer_text, read_answer, CallOutcome, CompletionFailure, CompletionFault, Content, HttpFault,
};
use oncall_ai::triage::worker::{Action, Event, Phase, Worker};
use oncall_ai::triage::{
    render_prompt, BuildError, ErrorClass, Severity, TriageError, TriageResult, Triager,
};

fn test_alert() -> Alert {
    let mut labels = Labels::new();
    labels.insert("service".to_owned(), "checkout".to_owned());
    labels.insert("alertname".to_owned(), "CheckoutDbLatency".to_owned());
    Alert {
        source: "grafana",
        source_alert_id: "test-alert-1".to_owned(),
        labels,
        annotations: Labels::new(),
        starts_at: Timestamp::new(0, 0).expect("valid time"),
        status: AlertStatus::Firing,
        raw_payload: "{\"secret\":\"payload\"}".to_owned(),
    }
}

fn test_config(provider: ModelProvider, model: &str) -> TriageConfig {
    TriageConfig {
        model: ModelSpec { provider, model: model.to_owned() },
        endpoint: "http://192.0.2.1:1".to_owned(),
        queue_capacity: 8,
        timeout_secs: 5,
        backoff_initial_ms: 1,
        backoff_max_ms: 1,
    }
}

fn stubbed() -> TriageResult {
    TriageResult {
        severity: Severity::P4,
        service: None,
        tags: Vec::new(),
        summary: "stubbed".to_owned(),
    }
}

fn model_error() -> TriageError {
    TriageError::Completion(CompletionFailure {
        fault: CompletionFault::Other,
        message: "scripted".to_owned(),
    })
}

#[test]
fn rendered_prompt_is_stable() {
    let mut alert = test_alert();
    alert.annotations.insert("summary".to_owned(), "p99 above 2s".to_owned());
    assert_eq!(
        render_prompt(&alert),
        "source: grafana\nstatus: firing\nstarted: 1970-01-01 00:00:00 UTC\nlabels:\n  \
         alertname: CheckoutDbLatency\n  service: checkout\nannotations:\n  summary: p99 above \
         2s\n"
    );
}

#[test]
fn a_prompt_leaves_empty_sections_out() {
    let mut alert = test_alert();
    alert.labels = Labels::new();
    alert.status = AlertStatus::Resolved;
    assert_eq!(
        render_prompt(&alert),
        "source: grafana\nstatus: resolved\nstarted: 1970-01-01 00:00:00 UTC\n"
    );
}

#[test]
fn severity_display_and_serde_are_stable() {
    let all = [Severity::P1, Severity::P2, Severity::P3, Severity::P4, Severity::Unknown];
    let rendered: Vec<(&str, String)> = all
        .iter()
        .map(|severity| {
            let text = severity.as_str();
            (text, serde_json::to_string(text).expect("severity serializes"))
        })
        .collect();
    assert_eq!(
        rendered,
        vec![
            ("P1", "\"P1\"".to_owned()),
            ("P2", "\"P2\"".to_owned()),
            ("P3", "\"P3\"".to_owned()),
            ("P4", "\"P4\"".to_owned()),
            ("Unknown", "\"Unknown\"".to_owned()),
        ]
    );
}

/// Triage is Ollama-only; a non-Ollama spec must die at build, not at the first call.
#[test]
fn unsupported_provider_fails_to_build() {
    let config = test_config(ModelProvider::Anthropic, "sonnet-5");
    let Err(error) = Triager::new(&config) else {
        panic!("anthropic must not build");
    };
    assert!(matches!(error, BuildError::UnsupportedProvider { .. }));
    assert!(
        error.message().contains("triage.model") && error.message().contains("anthropic"),
        "error must name the key and the provider, got: {}",
        error.message()
    );
    assert_eq!(
        error.message(),
        "triage.model names provider anthropic; triage supports only ollama"
    );
}

#[test]
fn a_triager_takes_its_settings_from_the_configuration() {
    let triager = Triager::new(&test_config(ModelProvider::Ollama, "test-model")).expect("builds");
    assert_eq!(triager.endpoint, "http://192.0.2.1:1");
    assert_eq!(triager.model, "test-model");
    assert_eq!(triager.timeout, Delay::from_secs(5));
    let failed = BuildError::Client {
        endpoint: "http://192.0.2.1:1".to_owned(),
        source: "no TLS".to_owned(),
    };
    assert_eq!(
        failed.message(),
        "failed to build triage client for endpoint http://192.0.2.1:1"
    );
}

#[test]
fn valid_model_output_parses() {
    let contents = vec![Content::Other, Content::Text("{}".to_owned()), Content::Text("x".to_owned())];
    let text = answer_text(CallOutcome::Answered(contents), Delay::from_secs(5)).expect("a text");
    assert_eq!(text, "{}");
    let result = read_answer(&text, Ok(stubbed())).expect("triage succeeds");
    assert_eq!(result.summary, "stubbed");
}

#[test]
fn malformed_model_output_is_output_error() {
    let error = read_answer("not json at all", Err("expected ident".to_owned())).expect_err("fails");
    assert_eq!(error.class(), ErrorClass::Output);
    assert_eq!(
        error.message(),
        "model output is not valid TriageResult JSON: expected ident; output began: not json at all"
    );
}

#[test]
fn unparseable_output_error_truncates_the_snippet() {
    let garbage = "z".repeat(300);
    let error = read_answer(&garbage, Err("expected value".to_owned())).expect_err("must fail");
    assert_eq!(error.class(), ErrorClass::Output);
    let message = error.message();
    assert!(
        message.contains(&"z".repeat(200)),
        "error must carry the first 200 bytes, got: {message}"
    );
    assert!(
        !message.contains(&"z".repeat(201)),
        "snippet must stop at 200 bytes, got: {message}"
    );
}

#[test]
fn tool_call_only_response_is_output_error() {
    let outcome = CallOutcome::Answered(vec![Content::Other]);
    let error = answer_text(outcome, Delay::from_secs(5)).expect_err("must fail");
    assert!(matches!(error, TriageError::MissingText));
    assert_eq!(error.class(), ErrorClass::Output);
    assert_eq!(error.message(), "model response has no text content");
}

#[test]
fn http_error_is_model_error() {
    for fault in [HttpFault::InvalidStatusCode, HttpFault::InvalidStatusCodeWithMessage] {
        let failure =
            CompletionFailure { fault: CompletionFault::Http(fault), message: "500".to_owned() };
        let error =
            answer_text(CallOutcome::Failed(failure), Delay::from_secs(5)).expect_err("must fail");
        assert_eq!(error.class(), ErrorClass::Model);
        assert_eq!(error.message(), "500");
    }
}

#[test]
fn unreachable_endpoint_is_transport_error() {
    let failure = CompletionFailure {
        fault: CompletionFault::Http(HttpFault::Other),
        message: "connection refused".to_owned(),
    };
    let error =
        answer_text(CallOutcome::Failed(failure), Delay::from_secs(5)).expect_err("must fail");
    assert_eq!(error.class(), ErrorClass::Transport);
}

#[test]
fn timeout_is_transport_error() {
    let error = answer_text(CallOutcome::TimedOut, Delay::from_millis(100)).expect_err("must fail");
    assert_eq!(error.class(), ErrorClass::Transport);
    assert!(
        error.message().contains("100ms"),
        "error must name the configured timeout, got: {}",
        error.message()
    );
    assert_eq!(TriageError::Timeout(Delay::from_secs(90)).message(), "triage call timed out after 90s");
}

#[test]
fn provider_side_completion_errors_classify_as_model() {
    for message in ["not json", "model not pulled", "no assistant message"] {
        let error = TriageError::Completion(CompletionFailure {
            fault: CompletionFault::Other,
            message: message.to_owned(),
        });
        assert_eq!(error.class(), ErrorClass::Model);
    }
}

fn tiny_backoff() -> Backoff {
    Backoff { initial: Delay::from_millis(1), max: Delay::from_millis(1) }
}

/// What came of running a worker over queued requests.
struct Run {
    dropped: usize,
    calls: usize,
    results: Vec<(IncidentId, String)>,
    abandoned: usize,
}

/// Runs a worker over `requests` until it stops. Each attempt takes the next scripted error, and
/// succeeds once there are none left.
fn run(requests: Vec<IncidentId>, errors: Vec<TriageError>) -> Run {
    let mut queue = requests.into_iter();
    let mut errors = errors.into_iter();
    let mut worker = Worker::new(tiny_backoff());
    let mut run = Run { dropped: 0, calls: 0, results: Vec::new(), abandoned: 0 };
    let mut attempted = None;
    while worker.phase() != Phase::Stopped {
        let event = match attempted.take() {
            Some(outcome) => Event::Attempted(outcome),
            None => Event::Request(queue.next()),
        };
        match worker.step(event) {
            Action::Nothing => {}
            Action::Attempt | Action::AttemptAfter { .. } => {
                run.calls += 1;
                attempted = Some(match errors.next() {
                    Some(error) => Err(error),
                    None => Ok(stubbed()),
                });
            }
            Action::Send(triaged) => run.results.push((triaged.incident, triaged.result.summary)),
            Action::Abandon(_) => run.abandoned += 1,
        }
    }
    run.dropped = worker.dropped();
    run
}

#[test]
fn triages_every_queued_alert_and_drops_nothing_on_close() {
    let sent = vec![IncidentId(1), IncidentId(2), IncidentId(3)];
    let run = run(sent.clone(), Vec::new());
    assert_eq!(run.dropped, 0, "a closed empty queue drops nothing");
    assert_eq!(run.calls, 3, "every queued alert is triaged once");
    let expected: Vec<(IncidentId, String)> =
        sent.into_iter().map(|incident| (incident, "stubbed".to_owned())).collect();
    assert_eq!(run.results, expected, "results keep send order");
}

#[test]
fn output_errors_give_up_after_the_cap() {
    let errors = vec![
        TriageError::MissingText,
        TriageError::MissingText,
        TriageError::MissingText,
        TriageError::MissingText,
    ];
    let run = run(vec![IncidentId(1)], errors);
    assert_eq!(run.dropped, 0, "an abandoned alert is not a shutdown drop");
    assert_eq!(run.calls, 3, "output errors stop at the cap");
    assert_eq!(run.abandoned, 1);
}

#[test]
fn model_errors_retry_and_do_not_consume_the_output_cap() {
    let errors = vec![TriageError::MissingText, model_error(), TriageError::MissingText];
    let run = run(vec![IncidentId(1)], errors);
    assert_eq!(run.dropped, 0);
    assert_eq!(run.calls, 4, "two output and one model error, then success");
    assert_eq!(run.results.len(), 1);
}

#[test]
fn the_output_cap_starts_over_with_each_request() {
    let errors = vec![
        TriageError::MissingText,
        TriageError::MissingText,
        TriageError::MissingText,
        TriageError::MissingText,
        TriageError::MissingText,
    ];
    let run = run(vec![IncidentId(1), IncidentId(2)], errors);
    assert_eq!(run.calls, 6, "three for the first request, three for the second");
    assert_eq!(run.results, vec![(IncidentId(2), "stubbed".to_owned())]);
}

#[test]
fn shutdown_drops_the_in_flight_alert_and_the_queued_rest() {
    let mut worker = Worker::new(tiny_backoff());
    assert!(matches!(worker.step(Event::Request(Some(IncidentId(1)))), Action::Attempt));
    assert_eq!(worker.phase(), Phase::Busy);
    assert!(matches!(worker.step(Event::Shutdown), Action::Nothing));
    worker.step(Event::Request(Some(IncidentId(2))));
    worker.step(Event::Request(Some(IncidentId(3))));
    worker.step(Event::Request(None));
    assert_eq!(worker.phase(), Phase::Stopped);
    assert_eq!(worker.dropped(), 3, "one abandoned in flight plus two never dequeued");
}

#[test]
fn shutdown_before_any_alert_drains_the_queue() {
    let mut worker = Worker::new(tiny_backoff());
    worker.step(Event::Shutdown);
    for _ in 0..2 {
        let action = worker.step(Event::Request(Some(IncidentId(1))));
        assert!(matches!(action, Action::Nothing), "nothing is triaged after shutdown");
    }
    worker.step(Event::Request(None));
    assert_eq!(worker.dropped(), 2, "everything queued is counted as dropped");
}

#[test]
fn failed_triage_sends_no_result() {
    let errors = vec![
        TriageError::MissingText,
        TriageError::MissingText,
        TriageError::MissingText,
        TriageError::MissingText,
    ];
    let run = run(vec![IncidentId(1)], errors);
    assert!(run.results.is_empty(), "an abandoned triage must not fabricate a result");
}

#[test]
fn attempts_are_spaced_by_growing_delays() {
    let backoff = Backoff { initial: Delay::from_millis(10), max: Delay::from_millis(25) };
    let mut worker = Worker::new(backoff);
    worker.step(Event::Request(Some(IncidentId(1))));
    let mut delays = Vec::new();
    for _ in 0..4 {
        match worker.step(Event::Attempted(Err(model_error()))) {
            Action::AttemptAfter { delay } => delays.push(delay.nanos() / 1_000_000),
            _ => panic!("model errors are retried"),
        }
    }
    assert_eq!(delays, vec![10, 20, 25, 25]);
}
