use chat_session::anthropic::ModelInfo;
use chat_session::chat::{chat_file_path, next_chat_id, session_id_of_filename, State};
use chat_session::codec::{encode_history, parse_history};
use chat_session::config::Config;
use chat_session::message::{Message, PartKind, Role};

fn model(id: &str, name: &str) -> ModelInfo {
    ModelInfo {
        id: String::from(id),
        created_at: String::from("2024-01-01T00:00:00Z"),
        display_name: String::from(name),
        kind: String::from("model"),
    }
}

fn fresh_state(id: u16) -> State {
    State::new(
        id,
        Config::new(String::from("be helpful"), String::from("SECRET-REDACTED")),
        vec![model("m-1", "Alpha"), model("m-2", "Beta")],
        0,
    )
}

fn sample_history() -> Vec<Message> {
    vec![
        Message::user(String::from("first question")),
        Message::assistant(String::from("first answer")),
        Message::user(String::from("tricky \"quoted\" and back\\slashed")),
        Message::user(String::from("multi\nline\twith spaces  ")),
        Message::with_part(Role::Assistant, PartKind::Image, String::from("opaque\"blob\\x")),
        Message::with_part(Role::User, PartKind::ToolResult, String::from("{\"n\": 3}")),
    ]
}

#[test]
fn config_hands_back_resolved_values() {
    let config = Config::new(String::from("be helpful"), String::from("SECRET-REDACTED"));
    assert_eq!(config.preamble(), "be helpful");
    assert_eq!(config.anthropic_api_key(), "SECRET-REDACTED");
}

#[test]
fn round_trip_keeps_messages_exactly() {
    let history = sample_history();
    let stored = encode_history(&history);
    let back = parse_history(&stored).expect("an encoded history must parse");
    assert_eq!(back, history);
}

#[test]
fn empty_history_round_trips() {
    let history: Vec<Message> = Vec::new();
    let stored = encode_history(&history);
    assert_eq!(stored, "[]");
    let back = parse_history(&stored).expect("the empty history must parse");
    assert_eq!(back.len(), 0);
}

#[test]
fn garbage_does_not_parse() {
    assert!(parse_history("").is_none());
    assert!(parse_history("[").is_none());
    assert!(parse_history("not json at all").is_none());
    assert!(parse_history("[\n{\"role\":\"emperor\",\"parts\":[]}\n]").is_none());
}

#[test]
fn save_then_import_into_fresh_history_restores_it() {
    let mut first = fresh_state(3);
    for m in sample_history() {
        first.add_to_history(m);
    }
    let (path, contents, lines) = first.save_chat_history();
    assert_eq!(path, "chats/3.json");
    assert_eq!(lines, vec![String::from("Saved chat history to the chats/ directory")]);

    let mut second = fresh_state(9);
    assert_eq!(second.history().len(), 0);
    let report = second.append_history_from_text(3, Some(contents.as_str()));
    assert_eq!(report, vec![String::from("History with ID: 3 found!")]);
    assert_eq!(second.history(), first.history());
}

#[test]
fn import_appends_rather_than_replaces() {
    let mut state = fresh_state(0);
    state.add_to_history(Message::user(String::from("already here")));
    let stored = encode_history(&vec![Message::assistant(String::from("imported"))]);
    state.append_history_from_text(1, Some(stored.as_str()));
    assert_eq!(state.history().len(), 2);
    assert_eq!(state.history()[0], Message::user(String::from("already here")));
    assert_eq!(state.history()[1], Message::assistant(String::from("imported")));
}

#[test]
fn import_missing_file_reports_not_found_and_changes_nothing() {
    let mut state = fresh_state(0);
    state.add_to_history(Message::user(String::from("kept")));
    let report = state.append_history_from_text(42, None);
    assert_eq!(report, vec![String::from("Failed to get history: not found")]);
    assert_eq!(state.history().len(), 1);
}

#[test]
fn import_unparseable_file_reports_and_changes_nothing() {
    let mut state = fresh_state(0);
    state.add_to_history(Message::user(String::from("kept")));
    let report = state.append_history_from_text(8, Some("{broken"));
    assert_eq!(
        report,
        vec![
            String::from("History with ID: 8 found!"),
            String::from("Failed to parse history file"),
        ]
    );
    assert_eq!(state.history().len(), 1);
}

#[test]
fn allocator_returns_smallest_free_id() {
    assert_eq!(next_chat_id(&vec![0, 1, 3]), Some(2));
    assert_eq!(next_chat_id(&vec![0, 1, 2]), Some(3));
    assert_eq!(next_chat_id(&vec![]), Some(0));
    assert_eq!(next_chat_id(&vec![5]), Some(0));
}

#[test]
fn allocator_fails_when_all_ids_taken() {
    let all: Vec<u16> = (0..=65535u16).collect();
    assert_eq!(next_chat_id(&all), None);
    let mut almost: Vec<u16> = (0..=65535u16).collect();
    almost.retain(|&id| id != 65535);
    assert_eq!(next_chat_id(&almost), Some(65535));
}

#[test]
fn session_file_names() {
    assert_eq!(session_id_of_filename("12.json"), Some(12));
    assert_eq!(session_id_of_filename("0.json"), Some(0));
    assert_eq!(session_id_of_filename("3.tar.json"), Some(3));
    assert_eq!(session_id_of_filename("abc.json"), None);
    assert_eq!(session_id_of_filename("7.txt"), None);
    assert_eq!(session_id_of_filename("70000.json"), None);
    assert_eq!(session_id_of_filename(".json"), None);
    assert_eq!(session_id_of_filename("nodot"), None);
    assert_eq!(chat_file_path(7), "chats/7.json");
    assert_eq!(chat_file_path(65535), "chats/65535.json");
}
