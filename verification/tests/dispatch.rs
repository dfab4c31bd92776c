use chat_session::agent_tools::{Add, AddArgs, Divide, DivideArgs, Multiply, MultiplyArgs,
    Subtract, SubtractArgs};
use chat_session::anthropic::ModelInfo;
use chat_session::chat::State;
use chat_session::commands::{
    startup_model_choice, switch_model_choice, ModelChoice, StartupChoice,
};
use chat_session::config::Config;
use chat_session::input::Input;
use chat_session::message::{Message, PartKind, Role};
use chat_session::runner::{Directive, Runner};

fn model(id: &str, name: &str) -> ModelInfo {
    ModelInfo {
        id: String::from(id),
        created_at: String::from("2024-01-01T00:00:00Z"),
        display_name: String::from(name),
        kind: String::from("model"),
    }
}

fn fresh_state(id: u16) -> State {
    State::new(
        id,
        Config::new(String::from("p"), String::from("SECRET-REDACTED")),
        vec![model("m-1", "Alpha"), model("m-2", "Beta"), model("m-3", "Gamma")],
        1,
    )
}

#[test]
fn dispatch_clear_context() {
    let mut state = fresh_state(0);
    state.add_to_history(Message::user(String::from("x")));
    let d = Runner::dispatch(&mut state, Input::ClearContext);
    match d {
        Directive::Show(lines) => assert_eq!(lines, vec![String::from("Chat history cleared")]),
        other => panic!("unexpected directive {:?}", other),
    }
    assert_eq!(state.history().len(), 0);
}

#[test]
fn dispatch_help_lists_all_commands() {
    let mut state = fresh_state(0);
    let d = Runner::dispatch(&mut state, Input::ShowHelpMessage);
    match d {
        Directive::Show(lines) => {
            assert_eq!(lines.len(), 11);
            assert_eq!(lines[0], "Commands:");
            assert!(lines.iter().any(|l| l.contains("/model")));
            assert!(lines.iter().any(|l| l.contains("/exit")));
        }
        other => panic!("unexpected directive {:?}", other),
    }
}

#[test]
fn dispatch_token_usage_lines() {
    let mut state = fresh_state(0);
    state.add_input_tokens_used(1234);
    state.add_output_tokens_used(9);
    let d = Runner::dispatch(&mut state, Input::ShowTokenUsage);
    match d {
        Directive::Show(lines) => {
            assert_eq!(
                lines,
                vec![
                    String::from("Total Input Tokens Used: 1234"),
                    String::from("Total Output Tokens Used: 9"),
                ]
            );
        }
        other => panic!("unexpected directive {:?}", other),
    }
}

#[test]
fn dispatch_history_shows_last_ten_oldest_first() {
    let mut state = fresh_state(0);
    for k in 1..=12 {
        state.add_to_history(Message::user(format!("msg{}", k)));
    }
    let d = Runner::dispatch(&mut state, Input::ShowChatHistory);
    let lines = match d {
        Directive::Show(lines) => lines,
        other => panic!("unexpected directive {:?}", other),
    };
    assert_eq!(lines[0], "Showing last 10 messages");
    let shown: Vec<&String> = lines.iter().filter(|l| l.starts_with("*User*")).collect();
    assert_eq!(shown.len(), 10);
    assert_eq!(shown[0], "*User*: \"msg3\"");
    assert_eq!(shown[9], "*User*: \"msg12\"");
    // one rule between each pair of shown messages
    assert_eq!(lines.iter().filter(|l| *l == "---").count(), 9);
}

#[test]
fn dispatch_history_truncates_at_three_hundred() {
    let mut state = fresh_state(0);
    state.add_to_history(Message::user("a".repeat(301)));
    state.add_to_history(Message::user("b".repeat(300)));
    let lines = match Runner::dispatch(&mut state, Input::ShowChatHistory) {
        Directive::Show(lines) => lines,
        other => panic!("unexpected directive {:?}", other),
    };
    let expected_long = format!("*User*: \"{}...\"", "a".repeat(300));
    let expected_exact = format!("*User*: \"{}\"", "b".repeat(300));
    assert!(lines.contains(&expected_long));
    assert!(lines.contains(&expected_exact));
}

#[test]
fn dispatch_history_shows_placeholders_for_opaque_parts() {
    let mut state = fresh_state(0);
    state.add_to_history(Message::with_part(Role::User, PartKind::Image, String::from("raw")));
    state.add_to_history(Message::with_part(
        Role::Assistant,
        PartKind::ToolCall,
        String::from("{\"f\":1}"),
    ));
    let lines = match Runner::dispatch(&mut state, Input::ShowChatHistory) {
        Directive::Show(lines) => lines,
        other => panic!("unexpected directive {:?}", other),
    };
    assert!(lines.contains(&String::from("*User*: *image*")));
    assert!(lines.contains(&String::from("*Assistant*: *tool call*")));
}

#[test]
fn dispatch_history_empty_notice() {
    let mut state = fresh_state(0);
    let lines = match Runner::dispatch(&mut state, Input::ShowChatHistory) {
        Directive::Show(lines) => lines,
        other => panic!("unexpected directive {:?}", other),
    };
    assert_eq!(lines, vec![String::from("No chat history")]);
}

#[test]
fn dispatch_save_and_exit() {
    let mut state = fresh_state(4);
    state.add_to_history(Message::user(String::from("x")));
    match Runner::dispatch(&mut state, Input::SaveChatHistory) {
        Directive::WriteSession { path, contents, lines } => {
            assert_eq!(path, "chats/4.json");
            assert!(contents.contains("\"role\":\"user\""));
            assert_eq!(lines, vec![String::from("Saved chat history to the chats/ directory")]);
        }
        other => panic!("unexpected directive {:?}", other),
    }
    match Runner::dispatch(&mut state, Input::ExitProcess) {
        Directive::Farewell { path, lines, .. } => {
            assert_eq!(path, "chats/4.json");
            assert_eq!(lines.last().unwrap(), "Farewell!");
        }
        other => panic!("unexpected directive {:?}", other),
    }
}

#[test]
fn dispatch_import_gives_the_session_path() {
    let mut state = fresh_state(0);
    match Runner::dispatch(&mut state, Input::ImportChatHistory(42)) {
        Directive::LoadSession { id, path } => {
            assert_eq!(id, 42);
            assert_eq!(path, "chats/42.json");
        }
        other => panic!("unexpected directive {:?}", other),
    }
}

#[test]
fn dispatch_model_menu() {
    let mut state = fresh_state(0);
    match Runner::dispatch(&mut state, Input::SwitchModel) {
        Directive::ChooseModel { lines } => {
            assert_eq!(
                lines,
                vec![
                    String::from("Current model: Beta"),
                    String::from("1. Alpha"),
                    String::from("2. Beta"),
                    String::from("3. Gamma"),
                ]
            );
        }
        other => panic!("unexpected directive {:?}", other),
    }
}

#[test]
fn dispatch_send_message_opens_a_streamed_turn() {
    let mut state = fresh_state(0);
    match Runner::dispatch(&mut state, Input::from_line("  Ask me ANYTHING  ")) {
        Directive::StreamTurn { message } => assert_eq!(message, "Ask me ANYTHING"),
        other => panic!("unexpected directive {:?}", other),
    }
    assert_eq!(state.history().len(), 1);
    assert_eq!(state.history()[0], Message::user(String::from("Ask me ANYTHING")));
}

#[test]
fn dispatch_summary_streams_only_with_history() {
    let mut state = fresh_state(0);
    match Runner::dispatch(&mut state, Input::ShowContextSummary) {
        Directive::Show(lines) => assert_eq!(lines, vec![String::from("Nothing to summarize")]),
        other => panic!("unexpected directive {:?}", other),
    }
    state.add_to_history(Message::user(String::from("x")));
    match Runner::dispatch(&mut state, Input::ShowContextSummary) {
        Directive::StreamSummary { prompt } => {
            assert!(prompt.starts_with("Summarize our conversation"));
        }
        other => panic!("unexpected directive {:?}", other),
    }
    // the summary prompt itself is not recorded as a turn
    assert_eq!(state.history().len(), 1);
}

#[test]
fn dispatch_compact_hands_out_the_prompt() {
    let mut state = fresh_state(0);
    match Runner::dispatch(&mut state, Input::CompactContext) {
        Directive::CompactTurn { prompt } => {
            assert!(prompt.starts_with("Provide a concise context summary"));
        }
        other => panic!("unexpected directive {:?}", other),
    }
}

#[test]
fn dispatch_empty_is_idle() {
    let mut state = fresh_state(0);
    assert!(matches!(Runner::dispatch(&mut state, Input::Empty), Directive::Idle));
}

#[test]
fn switch_choice_accepts_valid_one_based_index() {
    assert_eq!(switch_model_choice(&Input::from_line("2"), 3), ModelChoice::Select(1));
    assert_eq!(switch_model_choice(&Input::from_line("02"), 3), ModelChoice::Select(1));
    assert_eq!(switch_model_choice(&Input::from_line("+2"), 3), ModelChoice::Select(1));
    assert_eq!(switch_model_choice(&Input::from_line("++2"), 3), ModelChoice::AskAgain);
    assert_eq!(switch_model_choice(&Input::from_line("3"), 3), ModelChoice::Select(2));
    assert_eq!(switch_model_choice(&Input::from_line("0"), 3), ModelChoice::AskAgain);
    assert_eq!(switch_model_choice(&Input::from_line("4"), 3), ModelChoice::AskAgain);
    assert_eq!(switch_model_choice(&Input::from_line("two"), 3), ModelChoice::AskAgain);
    assert_eq!(switch_model_choice(&Input::from_line("/clear"), 3), ModelChoice::Abort);
    assert_eq!(switch_model_choice(&Input::from_line("/exit"), 3), ModelChoice::Abort);
}

#[test]
fn set_agent_rebinds_the_model() {
    let mut state = fresh_state(0);
    assert_eq!(state.model(), "Beta");
    state.set_agent(2);
    assert_eq!(state.model(), "Gamma");
}

#[test]
fn startup_choice_picks_canonical_index_or_quits() {
    assert_eq!(startup_model_choice(" 2 ", 3), StartupChoice::Pick(1));
    assert_eq!(startup_model_choice("1", 3), StartupChoice::Pick(0));
    assert_eq!(startup_model_choice("02", 3), StartupChoice::Retry);
    assert_eq!(startup_model_choice("+2", 3), StartupChoice::Retry);
    assert_eq!(startup_model_choice("4", 3), StartupChoice::Retry);
    assert_eq!(startup_model_choice("0", 3), StartupChoice::Retry);
    assert_eq!(startup_model_choice("blah", 3), StartupChoice::Retry);
    assert_eq!(startup_model_choice("  /exit ", 3), StartupChoice::Quit);
}

#[test]
fn pending_input_round_trips_through_take() {
    let mut state = fresh_state(0);
    state.set_input(Input::from_line("/help"));
    assert!(!state.input().is_none());
    let taken = state.take_input();
    assert!(matches!(taken, Input::ShowHelpMessage));
    assert!(state.input().is_none());
}

#[test]
fn math_tools_compute() {
    assert_eq!(Add::call(AddArgs { lhs: 2, rhs: 40 }), 42);
    assert_eq!(Subtract::call(SubtractArgs { lhs: 2, rhs: 40 }), -38);
    assert_eq!(Multiply::call(MultiplyArgs { lhs: -6, rhs: 7 }), -42);
    assert_eq!(Divide::call(DivideArgs { lhs: 7, rhs: -2 }), -3);
    assert_eq!(Divide::call(DivideArgs { lhs: -7, rhs: 2 }), -3);
    assert_eq!(Divide::call(DivideArgs { lhs: -7, rhs: -2 }), 3);
    assert_eq!(Divide::call(DivideArgs { lhs: 42, rhs: 6 }), 7);
}
