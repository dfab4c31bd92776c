use chat_session::anthropic::ModelInfo;
use chat_session::chat::State;
use chat_session::config::Config;
use chat_session::message::{Message, PartKind, Role};
use chat_session::stream::{StreamEffect, StreamEvent};

fn fresh_state() -> State {
    State::new(
        0,
        Config::new(String::from("p"), String::from("SECRET-REDACTED")),
        vec![ModelInfo {
            id: String::from("m-1"),
            created_at: String::from("2024-01-01T00:00:00Z"),
            display_name: String::from("Alpha"),
            kind: String::from("model"),
        }],
        0,
    )
}

#[test]
fn streamed_turn_prints_fragments_and_counts_tokens() {
    let mut state = fresh_state();
    state.begin_stream_turn(String::from("hi"));
    assert_eq!(state.history().len(), 1);

    let mut printed = String::new();
    let events = vec![
        StreamEvent::TextFragment(String::from("Hel")),
        StreamEvent::TextFragment(String::from("lo ")),
        StreamEvent::TextFragment(String::from("there")),
        StreamEvent::FinalUsage { output_tokens: 5, input_tokens: Some(12) },
    ];
    for ev in events {
        match state.apply_stream_event(ev) {
            StreamEffect::PrintChunk(chunk) => printed.push_str(&chunk),
            StreamEffect::EndLine => printed.push('\n'),
            StreamEffect::Silent => {}
        }
    }
    assert_eq!(printed, "Hello there\n");
    assert_eq!(state.total_output_tokens_used(), 5);
    assert_eq!(state.total_input_tokens_used(), 12);
}

#[test]
fn whitespace_only_fragment_is_silent() {
    let mut state = fresh_state();
    let eff = state.apply_stream_event(StreamEvent::TextFragment(String::from("  \t ")));
    assert!(matches!(eff, StreamEffect::Silent));
}

#[test]
fn usage_without_input_delta_raises_only_output() {
    let mut state = fresh_state();
    state.apply_stream_event(StreamEvent::FinalUsage { output_tokens: 7, input_tokens: None });
    assert_eq!(state.total_output_tokens_used(), 7);
    assert_eq!(state.total_input_tokens_used(), 0);
}

#[test]
fn counters_accumulate_over_turns() {
    let mut state = fresh_state();
    state.apply_stream_event(StreamEvent::FinalUsage { output_tokens: 5, input_tokens: Some(2) });
    state.apply_stream_event(StreamEvent::OtherKind);
    state.apply_stream_event(StreamEvent::FinalUsage { output_tokens: 3, input_tokens: None });
    state.apply_stream_event(StreamEvent::FinalUsage { output_tokens: 0, input_tokens: Some(4) });
    assert_eq!(state.total_output_tokens_used(), 8);
    assert_eq!(state.total_input_tokens_used(), 6);
}

#[test]
fn final_response_appends_one_assistant_message() {
    let mut state = fresh_state();
    state.begin_stream_turn(String::from("question"));
    let eff = state.apply_stream_event(StreamEvent::FinalResponse(String::from("answer")));
    assert!(matches!(eff, StreamEffect::Silent));
    assert_eq!(state.history().len(), 2);
    assert_eq!(state.history()[1], Message::assistant(String::from("answer")));
    assert_eq!(state.history()[1].role, Role::Assistant);
    assert_eq!(state.history()[1].parts[0].kind, PartKind::Text);
}

#[test]
fn compact_replaces_history_with_one_assistant_message() {
    let mut state = fresh_state();
    state.add_to_history(Message::user(String::from("a")));
    state.add_to_history(Message::assistant(String::from("b")));
    state.add_to_history(Message::user(String::from("c")));
    let lines = state.compact_context(String::from("we discussed four things today"));
    assert_eq!(lines, vec![String::from("Compaction completed in 5 words")]);
    assert_eq!(state.history().len(), 1);
    assert_eq!(
        state.history()[0],
        Message::assistant(String::from("we discussed four things today"))
    );
}

#[test]
fn clear_context_empties_history_and_input() {
    let mut state = fresh_state();
    state.add_to_history(Message::user(String::from("a")));
    state.add_to_history(Message::assistant(String::from("b")));
    state.set_input(chat_session::input::Input::from_line("pending"));
    let lines = state.clear_context();
    assert_eq!(lines, vec![String::from("Chat history cleared")]);
    assert_eq!(state.history().len(), 0);
    assert!(state.input().is_none());
}
