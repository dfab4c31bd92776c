use chat_session::input::Input;

#[test]
fn history_any_casing_with_whitespace() {
    assert!(matches!(Input::from_line("  /HiStOrY  "), Input::ShowChatHistory));
}

#[test]
fn commands_case_insensitive_match_canonical() {
    assert!(matches!(Input::from_line("/EXIT"), Input::ExitProcess));
    assert!(matches!(Input::from_line(" /exit "), Input::ExitProcess));
    assert!(matches!(Input::from_line("/Save"), Input::SaveChatHistory));
    assert!(matches!(Input::from_line("\t/TOKENS\n"), Input::ShowTokenUsage));
    assert!(matches!(Input::from_line("/Clear"), Input::ClearContext));
    assert!(matches!(Input::from_line("/MODEL"), Input::SwitchModel));
    assert!(matches!(Input::from_line("/Help"), Input::ShowHelpMessage));
    assert!(matches!(Input::from_line("/SuMmArIzE"), Input::ShowContextSummary));
    assert!(matches!(Input::from_line("/COMPACT"), Input::CompactContext));
    assert!(matches!(Input::from_line("/history"), Input::ShowChatHistory));
}

#[test]
fn plain_text_becomes_message_with_trimmed_text() {
    match Input::from_line("  Hello World  ") {
        Input::SendMessage(text) => assert_eq!(text, "Hello World"),
        other => panic!("expected a message, got {:?}", other),
    }
}

#[test]
fn unicode_whitespace_is_trimmed_and_splits_tokens() {
    assert!(matches!(Input::from_line("\u{0C}/exit\u{A0}"), Input::ExitProcess));
    assert!(matches!(Input::from_line(" \u{2028}\u{3000} "), Input::Empty));
    assert!(matches!(Input::from_line("/import\u{2003}7"), Input::ImportChatHistory(7)));
}

#[test]
fn empty_line_is_no_input() {
    assert!(matches!(Input::from_line(""), Input::Empty));
    assert!(matches!(Input::from_line("   \t  "), Input::Empty));
    assert!(Input::from_line("").is_none());
}

#[test]
fn import_with_id_parses() {
    assert!(matches!(Input::from_line("/import 42"), Input::ImportChatHistory(42)));
    assert!(matches!(Input::from_line("  /IMPORT 7  "), Input::ImportChatHistory(7)));
    assert!(matches!(Input::from_line("/import 0007"), Input::ImportChatHistory(7)));
    assert!(matches!(Input::from_line("/import 65535"), Input::ImportChatHistory(65535)));
}

#[test]
fn import_takes_first_parseable_token() {
    assert!(matches!(Input::from_line("/import 5 7"), Input::ImportChatHistory(5)));
}

#[test]
fn import_non_numeric_falls_through() {
    match Input::from_line("/import abc") {
        Input::SendMessage(text) => assert_eq!(text, "/import abc"),
        other => panic!("expected fall-through to a message, got {:?}", other),
    }
    match Input::from_line("/import") {
        Input::SendMessage(text) => assert_eq!(text, "/import"),
        other => panic!("expected fall-through to a message, got {:?}", other),
    }
    match Input::from_line("/import 70000") {
        Input::SendMessage(text) => assert_eq!(text, "/import 70000"),
        other => panic!("expected fall-through to a message, got {:?}", other),
    }
}

#[test]
fn input_new_clear_is_none() {
    let mut input = Input::new();
    assert!(input.is_none());
    input = Input::from_line("hi");
    assert!(!input.is_none());
    input.clear();
    assert!(input.is_none());
}
