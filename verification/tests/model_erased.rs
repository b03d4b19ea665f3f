use oncall_ai::model::erased::{
    erase_stream_event, ErasedChoice, ErasedStep, ErasedStream, Polled, StreamedContent,
    StreamedToolCall,
};

type Event = StreamedContent<String, String, String, u64>;
type Choice = ErasedChoice<String, String, String, u64>;

fn tool_call() -> Event {
    StreamedContent::ToolCall {
        tool_call: StreamedToolCall {
            id: "call-1".to_owned(),
            call_id: Some("c".to_owned()),
            name: "read_file".to_owned(),
            arguments: "{\"path\":\"db.rs\"}".to_owned(),
            signature: None,
            additional_params: Some("{}".to_owned()),
        },
        internal_call_id: "internal-1".to_owned(),
    }
}

fn kind(choice: &Choice) -> &'static str {
    match choice {
        ErasedChoice::Message(_) => "text",
        ErasedChoice::Reasoning { .. } => "reasoning",
        ErasedChoice::ToolCall(_) => "tool_call",
        ErasedChoice::Unknown(_) => "unknown",
        ErasedChoice::FinalResponse(_) => "final",
        ErasedChoice::MessageId(_) => "message_id",
        ErasedChoice::ToolCallDelta { .. } | ErasedChoice::ReasoningDelta { .. } => "delta",
    }
}

/// Runs a stream of these events, which leaves `message_id`, to its end.
fn run(events: Vec<Event>, message_id: Option<&str>) -> Vec<Choice> {
    let mut stream = ErasedStream::new();
    let mut events = events.into_iter();
    let mut choices = Vec::new();
    loop {
        let polled: Polled<String, String, String, u64, String> = match events.next() {
            Some(event) => Polled::Event(event),
            None => Polled::Ended { message_id: message_id.map(str::to_owned) },
        };
        match stream.step(polled) {
            ErasedStep::PollAgain => {}
            ErasedStep::Emit(choice) => choices.push(choice),
            ErasedStep::EmitError(error) => panic!("{error}"),
            ErasedStep::End => return choices,
        }
    }
}

#[test]
fn stream_erasure_preserves_public_events() {
    let events = vec![
        StreamedContent::Text("answer".to_owned()),
        StreamedContent::Reasoning { id: None, content: vec!["because".to_owned()] },
        tool_call(),
        StreamedContent::ToolCallDelta {
            id: "call-2".to_owned(),
            internal_call_id: "internal-2".to_owned(),
            content: "read".to_owned(),
        },
        StreamedContent::ReasoningDelta { id: None, reasoning: "still thinking".to_owned() },
        StreamedContent::Unknown("{\"type\":\"hosted_tool\"}".to_owned()),
        StreamedContent::Final(13),
    ];
    let choices = run(events, None);
    let kinds: Vec<&str> = choices.iter().map(kind).collect();
    assert_eq!(
        kinds,
        ["text", "reasoning", "tool_call", "delta", "delta", "unknown", "final"]
    );
}

#[test]
fn stream_erasure_preserves_final_usage_and_message_id() {
    let choices = run(vec![StreamedContent::Final(21)], Some("message-2"));
    assert_eq!(choices.len(), 2);
    assert!(matches!(choices[0], ErasedChoice::FinalResponse(21)));
    assert!(matches!(&choices[1], ErasedChoice::MessageId(id) if id == "message-2"));
}

#[test]
fn stream_erasure_preserves_provider_errors() {
    let mut stream = ErasedStream::new();
    let step = stream.step::<String, String, String, u64, String>(Polled::Failed(
        "stream failed".to_owned(),
    ));
    assert!(matches!(step, ErasedStep::EmitError(message) if message == "stream failed"));
    assert!(!stream.done());
}

#[test]
fn a_tool_call_keeps_its_parts() {
    match erase_stream_event(tool_call()) {
        Some(ErasedChoice::ToolCall(call)) => {
            assert_eq!(call.id, "call-1");
            assert_eq!(call.internal_call_id, "internal-1");
            assert_eq!(call.call_id.as_deref(), Some("c"));
            assert_eq!(call.name, "read_file");
            assert_eq!(call.arguments, "{\"path\":\"db.rs\"}");
            assert_eq!(call.signature, None);
            assert_eq!(call.additional_params.as_deref(), Some("{}"));
        }
        _ => panic!("a tool call stays one"),
    }
}

#[test]
fn reasoning_keeps_its_first_piece_and_is_dropped_without_one() {
    let reasoning = |pieces: &[&str]| -> Event {
        StreamedContent::Reasoning {
            id: Some("r".to_owned()),
            content: pieces.iter().map(|piece| (*piece).to_owned()).collect(),
        }
    };
    assert!(erase_stream_event(reasoning(&[])).is_none());
    assert!(matches!(
        erase_stream_event(reasoning(&["first", "second"])),
        Some(ErasedChoice::Reasoning { id: Some(id), content }) if id == "r" && content == "first"
    ));
    let choices = run(vec![reasoning(&[]), StreamedContent::Text("t".to_owned())], None);
    assert_eq!(choices.len(), 1);
}

#[test]
fn nothing_follows_the_message_id() {
    let mut stream = ErasedStream::new();
    let ended = Polled::Ended { message_id: Some("m".to_owned()) };
    let step = stream.step::<String, String, String, u64, String>(ended);
    assert!(matches!(step, ErasedStep::Emit(ErasedChoice::MessageId(_))));
    assert!(stream.done());
    let late = Polled::Event(StreamedContent::Text("late".to_owned()));
    let step = stream.step::<String, String, String, u64, String>(late);
    assert!(matches!(step, ErasedStep::End));
}
