//! The dispatcher: one classified line goes in, the session state makes
//! exactly the transition the command table prescribes, and a directive
//! comes back telling the surrounding loop what outside work to perform
//! before it reads the next line.
use crate::anthropic::SpecModelInfo;
use crate::chat::{chat_file_path_spec, inv_state, SpecState, State};
use crate::codec::enc_history;
use crate::commands::{
    compact_line, help_lines, import_found_line, line_views, render_history, token_usage_lines,
};
use crate::input::{Input, SpecInput};
use crate::message::user_message;
use crate::text::{dec_digits, push_chars, push_str_chars, usize_to_chars, chars_to_string};
use vstd::prelude::*;

verus! {

pub struct Runner;

/// What the surrounding loop must do after one dispatched command.
#[derive(Debug)]
pub enum Directive {
    /// Print the lines, then read the next command.
    Show(Vec<String>),
    /// Overwrite the session file with the contents, print the lines,
    /// then read the next command.
    WriteSession { path: String, contents: String, lines: Vec<String> },
    /// Read the file at the path and hand its text — or nothing, if it is
    /// not there — to `State::append_history_from_text`.
    LoadSession { id: u16, path: String },
    /// Run one streamed turn; the outbound message already stands in the
    /// history. Feed each reply event to `State::apply_stream_event`.
    StreamTurn { message: String },
    /// Stream a reply to the prompt without recording the prompt as a
    /// turn. Feed each reply event to `State::apply_stream_event`.
    StreamSummary { prompt: String },
    /// Await one complete reply to the prompt and hand it to
    /// `State::compact_context`.
    CompactTurn { prompt: String },
    /// Print the catalog lines and run the model-switch sub-loop with
    /// `switch_model_choice`.
    ChooseModel { lines: Vec<String> },
    /// Overwrite the session file, print the lines, and end the loop.
    Farewell { path: String, contents: String, lines: Vec<String> },
    /// Nothing to do; read the next command.
    Idle,
}

/// The model menu: the active model's name, then every catalog entry
/// under its 1-based index.
pub open spec fn catalog_entries(opts: Seq<SpecModelInfo>, i: int) -> Seq<Seq<char>>
    decreases opts.len() - i when 0 <= i <= opts.len()
{
    if i >= opts.len() {
        Seq::empty()
    } else {
        seq![dec_digits((i + 1) as nat) + ". "@ + opts[i].display_name] + catalog_entries(
            opts,
            i + 1,
        )
    }
}

pub open spec fn catalog_lines(opts: Seq<SpecModelInfo>, active: int) -> Seq<Seq<char>> {
    seq!["Current model: "@ + opts[active].display_name] + catalog_entries(opts, 0)
}

/// Renders the model menu for the current catalog.
fn model_menu_lines(state: &State) -> (r: Vec<String>)
    requires
        inv_state(state@),
    ensures
        line_views(r@) == catalog_lines(state@.model_options, state@.model_index),
{
    let ghost opts = state@.model_options;
    let mut lines: Vec<String> = Vec::new();
    let mut head: Vec<char> = Vec::new();
    push_str_chars(&mut head, "Current model: ");
    push_str_chars(&mut head, state.model());
    lines.push(chars_to_string(&head));
    proof {
        assert(line_views(lines@) =~= seq!["Current model: "@ + opts[state@.model_index]
            .display_name]);
    }
    let options = state.model_options();
    let n = options.len();
    let mut i: usize = 0;
    while i < n
        invariant
            i <= n,
            n == opts.len(),
            opts == crate::anthropic::model_views(options@),
            line_views(lines@) + catalog_entries(opts, i as int) == seq!["Current model: "@
                + opts[state@.model_index].display_name] + catalog_entries(opts, 0),
        decreases n - i,
    {
        let mut entry: Vec<char> = Vec::new();
        let digits = usize_to_chars(i + 1);
        push_chars(&mut entry, &digits);
        push_str_chars(&mut entry, ". ");
        proof {
            assert(crate::anthropic::model_views(options@)[i as int] == options@[i as int]@);
        }
        push_str_chars(&mut entry, vstd::slice::slice_index_get(options, i).display_name.as_str());
        lines.push(chars_to_string(&entry));
        proof {
            assert(line_views(lines@) + catalog_entries(opts, i as int + 1) =~= seq![
                "Current model: "@ + opts[state@.model_index].display_name,
            ] + catalog_entries(opts, 0));
        }
        i += 1;
    }
    proof {
        assert(catalog_entries(opts, n as int) =~= Seq::<Seq<char>>::empty());
        assert(line_views(lines@) + Seq::<Seq<char>>::empty() =~= line_views(lines@));
    }
    lines
}

impl Runner {
    /// Executes one classified command against the session, as the
    /// handler table prescribes, and says what outside work follows.
    pub fn dispatch(state: &mut State, command: Input) -> (r: Directive)
        requires
            inv_state(old(state)@),
        ensures
            inv_state(final(state)@),
            match command@ {
                SpecInput::ClearContext => {
                    &&& final(state)@ == (SpecState {
                        history: Seq::empty(),
                        input: SpecInput::Empty,
                        ..old(state)@
                    })
                    &&& (r matches Directive::Show(lines) && line_views(lines@) == seq![
                        "Chat history cleared"@,
                    ])
                },
                SpecInput::ShowHelpMessage => {
                    &&& final(state)@ == (SpecState { input: SpecInput::Empty, ..old(state)@ })
                    &&& (r matches Directive::Show(lines) && line_views(lines@) == help_lines())
                },
                SpecInput::ShowChatHistory => {
                    &&& final(state)@ == (SpecState { input: SpecInput::Empty, ..old(state)@ })
                    &&& (r matches Directive::Show(lines) && line_views(lines@) == render_history(
                        old(state)@.history,
                    ))
                },
                SpecInput::SaveChatHistory => {
                    &&& final(state)@ == (SpecState { input: SpecInput::Empty, ..old(state)@ })
                    &&& (r matches Directive::WriteSession { path, contents, lines } && path@
                        == chat_file_path_spec(old(state)@.id) && contents@ == enc_history(
                        old(state)@.history,
                    ) && line_views(lines@) == seq!["Saved chat history to the chats/ directory"@])
                },
                SpecInput::ImportChatHistory(id) => {
                    &&& final(state)@ == (SpecState { input: SpecInput::Empty, ..old(state)@ })
                    &&& (r matches Directive::LoadSession { id: did, path } && did == id && path@
                        == chat_file_path_spec(id))
                },
                SpecInput::ShowTokenUsage => {
                    &&& final(state)@ == (SpecState { input: SpecInput::Empty, ..old(state)@ })
                    &&& (r matches Directive::Show(lines) && line_views(lines@)
                        == token_usage_lines(
                        old(state)@.total_input_tokens_used,
                        old(state)@.total_output_tokens_used,
                    ))
                },
                SpecInput::SwitchModel => {
                    &&& final(state)@ == (SpecState { input: SpecInput::Empty, ..old(state)@ })
                    &&& (r matches Directive::ChooseModel { lines } && line_views(lines@)
                        == catalog_lines(old(state)@.model_options, old(state)@.model_index))
                },
                SpecInput::ShowContextSummary => {
                    &&& final(state)@ == (SpecState { input: SpecInput::Empty, ..old(state)@ })
                    &&& if old(state)@.history.len() == 0 {
                        r matches Directive::Show(lines) && line_views(lines@) == seq![
                            "Nothing to summarize"@,
                        ]
                    } else {
                        r matches Directive::StreamSummary { prompt } && prompt@
                            == "Summarize our conversation so far in 2-4 sentences. Focus on the key topics discussed and any conclusions reached."@
                    }
                },
                SpecInput::CompactContext => {
                    &&& final(state)@ == (SpecState { input: SpecInput::Empty, ..old(state)@ })
                    &&& (r matches Directive::CompactTurn { prompt } && prompt@
                        == "Provide a concise context summary of our conversation that could be used to continue this chat. Include key decisions made, current task state, and any important details. Write it as a brief paragraph, not a list."@)
                },
                SpecInput::ExitProcess => {
                    &&& final(state)@ == (SpecState { input: SpecInput::Empty, ..old(state)@ })
                    &&& (r matches Directive::Farewell { path, contents, lines } && path@
                        == chat_file_path_spec(old(state)@.id) && contents@ == enc_history(
                        old(state)@.history,
                    ) && line_views(lines@) == seq![
                        "Saved chat history to the chats/ directory"@,
                        "Farewell!"@,
                    ])
                },
                SpecInput::Empty => {
                    &&& final(state)@ == (SpecState { input: SpecInput::Empty, ..old(state)@ })
                    &&& r is Idle
                },
                SpecInput::SendMessage(m) => if m.len() == 0 {
                    &&& final(state)@ == (SpecState { input: SpecInput::Empty, ..old(state)@ })
                    &&& (r matches Directive::Show(lines) && line_views(lines@) == seq![
                        "Type a message and click enter"@,
                    ])
                } else {
                    &&& final(state)@ == (SpecState {
                        history: old(state)@.history.push(user_message(m)),
                        input: SpecInput::Empty,
                        ..old(state)@
                    })
                    &&& (r matches Directive::StreamTurn { message } && message@ == m)
                },
            },
    {
        match command {
            Input::ClearContext => Directive::Show(state.clear_context()),
            Input::ShowHelpMessage => Directive::Show(state.show_help_message()),
            Input::ShowChatHistory => Directive::Show(state.show_chat_history()),
            Input::SaveChatHistory => {
                let (path, contents, lines) = state.save_chat_history();
                Directive::WriteSession { path, contents, lines }
            },
            Input::ImportChatHistory(id) => {
                state.clear_input();
                Directive::LoadSession { id, path: crate::chat::chat_file_path(id) }
            },
            Input::ShowTokenUsage => Directive::Show(state.show_token_usage()),
            Input::SwitchModel => {
                state.clear_input();
                let lines = model_menu_lines(state);
                Directive::ChooseModel { lines }
            },
            Input::ShowContextSummary => {
                state.clear_input();
                if state.history_vec().len() == 0 {
                    let mut lines: Vec<String> = Vec::new();
                    lines.push(String::from_str("Nothing to summarize"));
                    proof {
                        assert(line_views(lines@) =~= seq!["Nothing to summarize"@]);
                    }
                    Directive::Show(lines)
                } else {
                    Directive::StreamSummary {
                        prompt: String::from_str(crate::commands::summarize_prompt()),
                    }
                }
            },
            Input::CompactContext => {
                state.clear_input();
                Directive::CompactTurn {
                    prompt: String::from_str(crate::commands::compact_prompt()),
                }
            },
            Input::ExitProcess => {
                let (path, contents, lines) = state.exit_process();
                Directive::Farewell { path, contents, lines }
            },
            Input::Empty => {
                state.clear_input();
                Directive::Idle
            },
            Input::SendMessage(m) => {
                state.clear_input();
                if m.as_str().is_empty() {
                    let mut lines: Vec<String> = Vec::new();
                    lines.push(String::from_str("Type a message and click enter"));
                    proof {
                        assert(line_views(lines@) =~= seq!["Type a message and click enter"@]);
                    }
                    Directive::Show(lines)
                } else {
                    let message = m.clone();
                    state.begin_stream_turn(m);
                    Directive::StreamTurn { message }
                }
            },
        }
    }
}

} // verus!
