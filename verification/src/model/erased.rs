//! What is left of a provider's answer once everything that only this provider knows is taken away.
use vstd::prelude::*;

verus! {

/// A tool call that came in whole. `V` stands for a JSON value.
pub struct StreamedToolCall<V> {
    pub id: String,
    pub call_id: Option<String>,
    pub name: String,
    pub arguments: V,
    pub signature: Option<String>,
    pub additional_params: Option<V>,
}

/// What a provider's stream hands out. `V` stands for a JSON value, `D` for a part of a tool call,
/// `C` for a piece of reasoning and `U` for token usage; they are handed on as they are.
#[allow(inconsistent_fields)]
pub enum StreamedContent<V, D, C, U> {
    Text(String),
    ToolCall { tool_call: StreamedToolCall<V>, internal_call_id: String },
    ToolCallDelta { id: String, internal_call_id: String, content: D },
    Reasoning { id: Option<String>, content: Vec<C> },
    ReasoningDelta { id: Option<String>, reasoning: String },
    /// The usage that the provider's final response reports.
    Final(U),
    Unknown(V),
}

/// A whole tool call, as the erased stream hands it out.
pub struct ErasedToolCall<V> {
    pub id: String,
    pub internal_call_id: String,
    pub call_id: Option<String>,
    pub name: String,
    pub arguments: V,
    pub signature: Option<String>,
    pub additional_params: Option<V>,
}

/// What the erased stream hands out.
#[allow(inconsistent_fields)]
pub enum ErasedChoice<V, D, C, U> {
    Message(String),
    ToolCall(ErasedToolCall<V>),
    ToolCallDelta { id: String, internal_call_id: String, content: D },
    Reasoning { id: Option<String>, content: C },
    ReasoningDelta { id: Option<String>, reasoning: String },
    FinalResponse(U),
    MessageId(String),
    Unknown(V),
}

/// What becomes of an event. Reasoning without content is dropped, and of several pieces the first
/// is kept; everything else is handed on.
pub open spec fn erased<V, D, C, U>(event: StreamedContent<V, D, C, U>) -> Option<
    ErasedChoice<V, D, C, U>,
> {
    match event {
        StreamedContent::Text(text) => Some(ErasedChoice::Message(text)),
        StreamedContent::ToolCall { tool_call, internal_call_id } => Some(
            ErasedChoice::ToolCall(
                ErasedToolCall {
                    id: tool_call.id,
                    internal_call_id,
                    call_id: tool_call.call_id,
                    name: tool_call.name,
                    arguments: tool_call.arguments,
                    signature: tool_call.signature,
                    additional_params: tool_call.additional_params,
                },
            ),
        ),
        StreamedContent::ToolCallDelta { id, internal_call_id, content } => Some(
            ErasedChoice::ToolCallDelta { id, internal_call_id, content },
        ),
        StreamedContent::Reasoning { id, content } => if content@.len() == 0 {
            None
        } else {
            Some(ErasedChoice::Reasoning { id, content: content@[0] })
        },
        StreamedContent::ReasoningDelta { id, reasoning } => Some(
            ErasedChoice::ReasoningDelta { id, reasoning },
        ),
        StreamedContent::Final(usage) => Some(ErasedChoice::FinalResponse(usage)),
        StreamedContent::Unknown(value) => Some(ErasedChoice::Unknown(value)),
    }
}

/// Takes from an event what only its provider knows.
pub fn erase_stream_event<V, D, C, U>(event: StreamedContent<V, D, C, U>) -> (choice: Option<
    ErasedChoice<V, D, C, U>,
>)
    ensures
        choice == erased(event),
{
    match event {
        StreamedContent::Text(text) => Some(ErasedChoice::Message(text)),
        StreamedContent::ToolCall { tool_call, internal_call_id } => Some(
            ErasedChoice::ToolCall(
                ErasedToolCall {
                    id: tool_call.id,
                    internal_call_id,
                    call_id: tool_call.call_id,
                    name: tool_call.name,
                    arguments: tool_call.arguments,
                    signature: tool_call.signature,
                    additional_params: tool_call.additional_params,
                },
            ),
        ),
        StreamedContent::ToolCallDelta { id, internal_call_id, content } => Some(
            ErasedChoice::ToolCallDelta { id, internal_call_id, content },
        ),
        StreamedContent::Reasoning { id, content } => {
            let mut content: Vec<C> = content;
            if content.len() == 0 {
                None
            } else {
                let first: C = content.swap_remove(0);
                Some(ErasedChoice::Reasoning { id, content: first })
            }
        },
        StreamedContent::ReasoningDelta { id, reasoning } => Some(
            ErasedChoice::ReasoningDelta { id, reasoning },
        ),
        StreamedContent::Final(usage) => Some(ErasedChoice::FinalResponse(usage)),
        StreamedContent::Unknown(value) => Some(ErasedChoice::Unknown(value)),
    }
}

/// What a poll of the provider's stream gave. `E` stands for its error.
pub enum Polled<V, D, C, U, E> {
    Event(StreamedContent<V, D, C, U>),
    Failed(E),
    /// The stream has ended; this is the message id that it left, if it left one.
    Ended { message_id: Option<String> },
}

/// What the erased stream does next.
pub enum ErasedStep<V, D, C, U, E> {
    /// It polls the provider's stream again.
    PollAgain,
    Emit(ErasedChoice<V, D, C, U>),
    EmitError(E),
    End,
}

/// The erased stream: it hands on what is left of each event, and after the last one the message
/// id, if there is one.
pub struct ErasedStream {
    message_id_emitted: bool,
}

impl ErasedStream {
    /// The message id was handed out.
    pub closed spec fn is_done(self) -> bool {
        self.message_id_emitted
    }

    /// A stream that has handed out nothing.
    pub fn new() -> (stream: ErasedStream)
        ensures
            !stream.is_done(),
    {
        ErasedStream { message_id_emitted: false }
    }

    /// Whether the stream has ended without a further poll.
    pub fn done(&self) -> (done: bool)
        ensures
            done == self.is_done(),
    {
        self.message_id_emitted
    }

    /// What the stream does with what a poll gave.
    pub fn step<V, D, C, U, E>(&mut self, polled: Polled<V, D, C, U, E>) -> (step: ErasedStep<
        V,
        D,
        C,
        U,
        E,
    >)
        ensures
            old(self).is_done() ==> step is End && final(self).is_done(),
            !old(self).is_done() ==> match polled {
                Polled::Event(event) => !final(self).is_done() && step == match erased(event) {
                    Some(choice) => ErasedStep::<V, D, C, U, E>::Emit(choice),
                    None => ErasedStep::<V, D, C, U, E>::PollAgain,
                },
                Polled::Failed(error) => !final(self).is_done() && step == ErasedStep::<
                    V,
                    D,
                    C,
                    U,
                    E,
                >::EmitError(error),
                Polled::Ended { message_id: Some(id) } => final(self).is_done() && step
                    == ErasedStep::<V, D, C, U, E>::Emit(ErasedChoice::MessageId(id)),
                Polled::Ended { message_id: None } => !final(self).is_done() && step
                    == ErasedStep::<V, D, C, U, E>::End,
            },
    {
        if self.message_id_emitted {
            return ErasedStep::End;
        }
        match polled {
            Polled::Event(event) => match erase_stream_event(event) {
                Some(choice) => ErasedStep::Emit(choice),
                None => ErasedStep::PollAgain,
            },
            Polled::Failed(error) => ErasedStep::EmitError(error),
            Polled::Ended { message_id } => match message_id {
                Some(id) => {
                    self.message_id_emitted = true;
                    ErasedStep::Emit(ErasedChoice::MessageId(id))
                },
                None => ErasedStep::End,
            },
        }
    }
}

/// Nothing that a provider streams is lost but reasoning without content: every other event is
/// handed on, as the same kind of thing and with the same content. Of reasoning in several pieces
/// the first is handed on, under the same id.
pub proof fn law_only_empty_reasoning_is_dropped<V, D, C, U>(event: StreamedContent<V, D, C, U>)
    ensures
        erased(event) is None <==> (event matches StreamedContent::Reasoning { content, .. }
            && content@.len() == 0),
        event matches StreamedContent::Text(text) ==> erased(event) == Some(
            ErasedChoice::<V, D, C, U>::Message(text),
        ),
        event matches StreamedContent::ToolCall { tool_call, internal_call_id } ==> (erased(
            event,
        ) matches Some(ErasedChoice::ToolCall(call)) && call.id == tool_call.id && call.call_id
            == tool_call.call_id && call.name == tool_call.name && call.arguments
            == tool_call.arguments && call.signature == tool_call.signature
            && call.additional_params == tool_call.additional_params && call.internal_call_id
            == internal_call_id),
        event matches StreamedContent::Reasoning { id, content } ==> (content@.len() > 0 ==> erased(
            event,
        ) == Some(ErasedChoice::<V, D, C, U>::Reasoning { id, content: content@[0] })),
        event matches StreamedContent::ToolCallDelta { id, internal_call_id, content } ==> erased(
            event,
        ) == Some(
            ErasedChoice::<V, D, C, U>::ToolCallDelta { id, internal_call_id, content },
        ),
        event matches StreamedContent::ReasoningDelta { id, reasoning } ==> erased(event) == Some(
            ErasedChoice::<V, D, C, U>::ReasoningDelta { id, reasoning },
        ),
        event matches StreamedContent::Final(usage) ==> erased(event) == Some(
            ErasedChoice::<V, D, C, U>::FinalResponse(usage),
        ),
        event matches StreamedContent::Unknown(value) ==> erased(event) == Some(
            ErasedChoice::<V, D, C, U>::Unknown(value),
        ),
{
}

} // verus!
