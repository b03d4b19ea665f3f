//! One triage call: what is asked of the model, and what is made of its answer.
use super::TriageResult;
use crate::config::{ModelProvider, TriageConfig};
use crate::retry::Delay;
use crate::text::{is_longest_prefix, law_longest_prefix_fills_the_limit, truncate_utf8};
use vstd::prelude::*;
use vstd::string::*;
use vstd::utf8::encode_utf8;

verus! {

/// How much of an answer that cannot be read is shown.
pub const OUTPUT_SNIPPET_BYTES: usize = 200;

/// The seed that is sent with every request, so that answers repeat.
pub const SAMPLING_SEED: u64 = 42;

/// What a triage call needs: an Ollama server, a model there, and how long to wait for it.
#[derive(Debug)]
pub struct Triager {
    pub endpoint: String,
    pub model: String,
    pub timeout: Delay,
}

/// An error from setting triage up.
#[derive(Debug)]
pub enum BuildError<T = String> {
    /// The client could not be built; `source` tells why.
    Client { endpoint: T, source: T },
    UnsupportedProvider { provider: ModelProvider },
}

impl View for BuildError<String> {
    type V = BuildError<Seq<char>>;

    open spec fn view(&self) -> BuildError<Seq<char>> {
        match self {
            BuildError::Client { endpoint, source } => BuildError::Client {
                endpoint: endpoint@,
                source: source@,
            },
            BuildError::UnsupportedProvider { provider } => BuildError::UnsupportedProvider {
                provider: *provider,
            },
        }
    }
}

/// What is said of an error.
pub open spec fn build_error_text(error: BuildError<Seq<char>>) -> Seq<char> {
    match error {
        BuildError::Client { endpoint, .. } => "failed to build triage client for endpoint "@
            + endpoint,
        BuildError::UnsupportedProvider { provider } => "triage.model names provider "@
            + provider.text() + "; triage supports only ollama"@,
    }
}

impl BuildError<String> {
    /// What is said of the error.
    pub fn message(&self) -> (message: String)
        ensures
            message@ == build_error_text(self@),
    {
        match self {
            BuildError::Client { endpoint, .. } => {
                let mut message: String = String::from_str(
                    "failed to build triage client for endpoint ",
                );
                message.append(endpoint.as_str());
                message
            },
            BuildError::UnsupportedProvider { provider } => {
                let mut message: String = String::from_str("triage.model names provider ");
                message.append(provider.as_str());
                message.append("; triage supports only ollama");
                message
            },
        }
    }
}

impl Triager {
    /// Sets triage up. Fails on a provider other than Ollama.
    pub fn new(config: &TriageConfig) -> (triager: Result<Self, BuildError>)
        ensures
            match triager {
                Ok(triager) => {
                    &&& config.model.provider == ModelProvider::Ollama
                    &&& triager.endpoint@ == config.endpoint@
                    &&& triager.model@ == config.model.model@
                    &&& triager.timeout.nanos() == config.timeout_secs * 1_000_000_000
                },
                Err(error) => config.model.provider != ModelProvider::Ollama && error@
                    == (BuildError::<Seq<char>>::UnsupportedProvider {
                    provider: config.model.provider,
                }),
            },
    {
        match config.model.provider {
            ModelProvider::Ollama => Ok(
                Triager {
                    endpoint: config.endpoint.clone(),
                    model: config.model.model.clone(),
                    timeout: Delay::from_secs(config.timeout_secs),
                },
            ),
            ModelProvider::Anthropic => Err(
                BuildError::UnsupportedProvider { provider: ModelProvider::Anthropic },
            ),
        }
    }
}

/// What went wrong with an HTTP exchange.
#[derive(Clone, Copy, PartialEq, Eq, Structural, Debug)]
pub enum HttpFault {
    InvalidStatusCode,
    InvalidStatusCodeWithMessage,
    /// Anything else: the server was not reached, or did not answer in full.
    Other,
}

/// What went wrong with a completion.
#[derive(Clone, Copy, PartialEq, Eq, Structural, Debug)]
pub enum CompletionFault {
    Http(HttpFault),
    /// Anything else: the answer, or the request, was not as it should be.
    Other,
}

/// A completion that failed, and what is said of it.
#[derive(Debug)]
pub struct CompletionFailure {
    pub fault: CompletionFault,
    pub message: String,
}

/// Why a triage call failed.
#[derive(Debug)]
pub enum TriageError {
    Timeout(Delay),
    Completion(CompletionFailure),
    MissingText,
    UnparseableOutput { snippet: String, source: String },
}

/// What kind of failure it was.
#[derive(Clone, Copy, PartialEq, Eq, Structural, Debug)]
pub enum ErrorClass {
    /// The model was not reached.
    Transport,
    /// The model, or its server, reported an error.
    Model,
    /// The model answered, but not with a triage result.
    Output,
}

/// The kind of failure of a completion.
pub open spec fn completion_class(fault: CompletionFault) -> ErrorClass {
    match fault {
        CompletionFault::Http(HttpFault::Other) => ErrorClass::Transport,
        CompletionFault::Http(_) => ErrorClass::Model,
        CompletionFault::Other => ErrorClass::Model,
    }
}

fn classify_completion(fault: CompletionFault) -> (class: ErrorClass)
    ensures
        class == completion_class(fault),
{
    match fault {
        CompletionFault::Http(http) => match http {
            HttpFault::InvalidStatusCode => ErrorClass::Model,
            HttpFault::InvalidStatusCodeWithMessage => ErrorClass::Model,
            HttpFault::Other => ErrorClass::Transport,
        },
        CompletionFault::Other => ErrorClass::Model,
    }
}

/// What the `Debug` of `std::time::Duration` prints for a duration of so many seconds and
/// nanoseconds.
pub uninterp spec fn duration_text(secs: u64, nanos: u32) -> Seq<char>;

/// Calls the `Debug` of `std::time::Duration`. Claimed: what is printed depends on the duration
/// alone.
#[verifier::external_body]
fn print_duration(secs: u64, nanos: u32) -> (text: String)
    requires
        nanos < 1_000_000_000,
    ensures
        text@ == duration_text(secs, nanos),
{
    format!("{:?}", std::time::Duration::new(secs, nanos))
}

/// What is printed for a delay.
pub open spec fn delay_text(delay: Delay) -> Seq<char> {
    duration_text(
        (delay.nanos() / 1_000_000_000) as u64,
        (delay.nanos() % 1_000_000_000) as u32,
    )
}

impl TriageError {
    /// The kind of failure.
    pub open spec fn spec_class(self) -> ErrorClass {
        match self {
            TriageError::Timeout(_) => ErrorClass::Transport,
            TriageError::Completion(failure) => completion_class(failure.fault),
            TriageError::MissingText => ErrorClass::Output,
            TriageError::UnparseableOutput { .. } => ErrorClass::Output,
        }
    }

    /// The kind of failure.
    #[must_use]
    pub fn class(&self) -> (class: ErrorClass)
        ensures
            class == self.spec_class(),
    {
        match self {
            TriageError::Timeout(_) => ErrorClass::Transport,
            TriageError::Completion(failure) => classify_completion(failure.fault),
            TriageError::MissingText => ErrorClass::Output,
            TriageError::UnparseableOutput { .. } => ErrorClass::Output,
        }
    }

    /// What is said of the error.
    pub open spec fn text(self) -> Seq<char> {
        match self {
            TriageError::Timeout(timeout) => "triage call timed out after "@ + delay_text(timeout),
            TriageError::Completion(failure) => failure.message@,
            TriageError::MissingText => "model response has no text content"@,
            TriageError::UnparseableOutput { snippet, source } =>
                "model output is not valid TriageResult JSON: "@ + source@ + "; output began: "@
                + snippet@,
        }
    }

    /// What is said of the error.
    pub fn message(&self) -> (message: String)
        ensures
            message@ == self.text(),
    {
        match self {
            TriageError::Timeout(timeout) => {
                let mut message: String = String::from_str("triage call timed out after ");
                let (secs, nanos) = timeout.parts();
                message.append(print_duration(secs, nanos).as_str());
                message
            },
            TriageError::Completion(failure) => failure.message.clone(),
            TriageError::MissingText => String::from_str("model response has no text content"),
            TriageError::UnparseableOutput { snippet, source } => {
                let mut message: String = String::from_str(
                    "model output is not valid TriageResult JSON: ",
                );
                message.append(source.as_str());
                message.append("; output began: ");
                message.append(snippet.as_str());
                message
            },
        }
    }
}

/// A piece of what the model answered.
#[derive(Debug)]
pub enum Content {
    Text(String),
    /// Anything but text: a tool call, reasoning, an image.
    Other,
}

/// How a triage call went.
#[derive(Debug)]
pub enum CallOutcome {
    TimedOut,
    Failed(CompletionFailure),
    Answered(Vec<Content>),
}

/// The first text at or after `start` among the pieces of an answer.
pub open spec fn first_text_from(contents: Seq<Content>, start: int) -> Option<Seq<char>>
    decreases contents.len() - start,
{
    if start < 0 || start >= contents.len() {
        None
    } else {
        match contents[start] {
            Content::Text(text) => Some(text@),
            Content::Other => first_text_from(contents, start + 1),
        }
    }
}

fn first_text(contents: &Vec<Content>) -> (text: Option<String>)
    ensures
        crate::text::option_text(text) == first_text_from(contents@, 0),
{
    let mut i: usize = 0;
    while i < contents.len()
        invariant
            i <= contents.len(),
            first_text_from(contents@, 0) == first_text_from(contents@, i as int),
        decreases contents.len() - i,
    {
        if let Content::Text(text) = &contents[i] {
            return Some(text.clone());
        }
        i = i + 1;
    }
    None
}

/// The text that the model answered, or why there is none. Of several texts the first counts.
pub fn answer_text(outcome: CallOutcome, timeout: Delay) -> (text: Result<String, TriageError>)
    ensures
        match outcome {
            CallOutcome::TimedOut => text == Err::<String, _>(TriageError::Timeout(timeout)),
            CallOutcome::Failed(failure) => text == Err::<String, _>(
                TriageError::Completion(failure),
            ),
            CallOutcome::Answered(contents) => match first_text_from(contents@, 0) {
                Some(first) => text is Ok && (text->Ok_0)@ == first,
                None => text == Err::<String, _>(TriageError::MissingText),
            },
        },
{
    match outcome {
        CallOutcome::TimedOut => Err(TriageError::Timeout(timeout)),
        CallOutcome::Failed(failure) => Err(TriageError::Completion(failure)),
        CallOutcome::Answered(contents) => match first_text(&contents) {
            Some(text) => Ok(text),
            None => Err(TriageError::MissingText),
        },
    }
}

/// What the text that the model answered comes to. `parsed` is what the text says as JSON, or why
/// it is no triage result. A text that cannot be read is shown in the error as far as its first
/// bytes go.
pub fn read_answer(text: &str, parsed: Result<TriageResult, String>) -> (result: Result<
    TriageResult,
    TriageError,
>)
    ensures
        match parsed {
            Ok(triage) => result == Ok::<_, TriageError>(triage),
            Err(error) => result matches Err(TriageError::UnparseableOutput { snippet, source })
                && source == error && is_longest_prefix(
                snippet@,
                text@,
                OUTPUT_SNIPPET_BYTES as int,
            ),
        },
{
    match parsed {
        Ok(triage) => Ok(triage),
        Err(source) => Err(
            TriageError::UnparseableOutput {
                snippet: truncate_utf8(text, OUTPUT_SNIPPET_BYTES).to_owned(),
                source,
            },
        ),
    }
}

/// A failure is one of the output exactly if the model answered without text or with a text that is
/// no triage result; it is one of the transport exactly if the call timed out or the server was not
/// reached; any other completion that failed is the model's.
pub proof fn law_class_tells_who_failed(error: TriageError)
    ensures
        error.spec_class() == ErrorClass::Output <==> error is MissingText
            || error is UnparseableOutput,
        error.spec_class() == ErrorClass::Transport <==> error is Timeout || (
        error matches TriageError::Completion(failure) && failure.fault == CompletionFault::Http(
            HttpFault::Other,
        )),
        error.spec_class() == ErrorClass::Model <==> (error matches TriageError::Completion(failure)
            && failure.fault != CompletionFault::Http(HttpFault::Other)),
{
}

/// Of the pieces of an answer the first text counts, whatever stands before and after it; there is
/// none exactly if no piece is text.
pub proof fn law_first_text_counts(contents: Seq<Content>, start: int, at: int)
    requires
        0 <= start <= at <= contents.len(),
        forall|i: int| start <= i < at ==> #[trigger] contents[i] is Other,
        at < contents.len() ==> contents[at] is Text,
    ensures
        at < contents.len() ==> (contents[at] matches Content::Text(text) && first_text_from(
            contents,
            start,
        ) == Some(text@)),
        at == contents.len() ==> first_text_from(contents, start) is None,
    decreases at - start,
{
    if start < at {
        assert(contents[start] is Other);
        law_first_text_counts(contents, start + 1, at);
    }
}

/// An answer that reads as a triage result is handed on as that result. One that does not is an error
/// of the output that shows the beginning of the answer, all of it where it is short.
pub proof fn law_unreadable_answer_is_shown(
    text: &str,
    parsed: Result<TriageResult, String>,
    result: Result<TriageResult, TriageError>,
)
    requires
        call_ensures(read_answer, (text, parsed), result),
    ensures
        result is Ok <==> parsed is Ok,
        parsed matches Ok(triage) ==> result == Ok::<TriageResult, TriageError>(triage),
        result matches Err(error) ==> error.spec_class() == ErrorClass::Output && (
        error matches TriageError::UnparseableOutput { snippet, source } && snippet@
            == text@.take(snippet@.len() as int) && (encode_utf8(text@).len()
            <= OUTPUT_SNIPPET_BYTES ==> snippet@ == text@)),
{
    if let Err(TriageError::UnparseableOutput { snippet, .. }) = result {
        law_longest_prefix_fills_the_limit(snippet@, text@, OUTPUT_SNIPPET_BYTES as int);
    }
}

impl TriageError {
    /// What is said of a failed completion is what the completion said; what is said of an answer
    /// that cannot be read tells why, and ends with how the answer began.
    pub proof fn law_message_tells_what_was_answered(self)
        ensures
            self matches TriageError::Completion(failure) ==> self.text() == failure.message@,
            self matches TriageError::UnparseableOutput { snippet, source } ==> self.text() == (
            "model output is not valid TriageResult JSON: "@ + source@) + ("; output began: "@
                + snippet@),
    {
        if let TriageError::UnparseableOutput { snippet, source } = self {
            assert(self.text() =~= ("model output is not valid TriageResult JSON: "@ + source@) + (
            "; output began: "@ + snippet@));
        }
    }
}

} // verus!
