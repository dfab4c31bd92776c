//! The command handlers: each mutates the session state as the command
//! table prescribes and returns the lines the operator is shown. All
//! terminal and file work stays with the caller.
use crate::chat::{chat_file_path, chat_file_path_spec, inv_state, SpecState, State};
use crate::codec::{dec_history, enc_history, encode_history, parse_history};
use crate::input::{Input, SpecInput};
use crate::message::{assistant_message, wf_message, Message, PartKind, Role, SpecMessage};
use crate::text::{
    all_digits, chars_of, chars_to_string, count_words, dec_digits, digits_val, parse_selection,
    push_chars, push_str_chars, trim, trim_chars, usize_to_chars, word_count, chars_eq_str,
};
use vstd::prelude::*;

verus! {

/// The views of a sequence of printed lines.
pub open spec fn line_views(s: Seq<String>) -> Seq<Seq<char>> {
    s.map_values(|x: String| x@)
}

/// The fixed command reference.
pub open spec fn help_lines() -> Seq<Seq<char>> {
    seq![
        "Commands:"@,
        "  /model     - switch between available models"@,
        "  /tokens    - show token usage"@,
        "  /history   - show last 10 messages from chat history"@,
        "  /save      - save chat history to file"@,
        "  /import    - import chat history from a saved file"@,
        "  /summarize - ask the agent to summarize the conversation"@,
        "  /compact   - condense conversation history"@,
        "  /clear     - clear chat history"@,
        "  /help      - list all available commands"@,
        "  /exit      - print farewell message and end the session"@,
    ]
}

/// The operator-facing label of a role.
pub open spec fn role_label(r: Role) -> Seq<char> {
    match r {
        Role::User => "*User*"@,
        Role::Assistant => "*Assistant*"@,
    }
}

/// The placeholder shown for a non-text content part.
pub open spec fn placeholder(k: PartKind) -> Seq<char> {
    match k {
        PartKind::Text => "*text*"@,
        PartKind::Image => "*image*"@,
        PartKind::Audio => "*audio*"@,
        PartKind::Video => "*video*"@,
        PartKind::Document => "*document*"@,
        PartKind::ToolResult => "*tool result*"@,
        PartKind::ToolCall => "*tool call*"@,
        PartKind::Reasoning => "*reasoning*"@,
    }
}

/// The one line a message shows as: its first part's text, trimmed and
/// cut to 300 characters with an ellipsis when longer, in quotes; or a
/// placeholder for a non-text part.
pub open spec fn msg_line(m: SpecMessage) -> Seq<char> {
    let p = m.parts[0];
    if p.kind == PartKind::Text {
        let truncated = if p.data.len() > 300 {
            p.data.take(300)
        } else {
            p.data
        };
        let ell = if p.data.len() > 300 {
            "..."@
        } else {
            Seq::<char>::empty()
        };
        role_label(m.role) + ": \""@ + trim(truncated) + ell + "\""@
    } else {
        role_label(m.role) + ": "@ + placeholder(p.kind)
    }
}

/// The lines shown for the messages from position `i` on: each message is
/// set off by blank lines, with a rule between consecutive messages.
pub open spec fn msg_blocks_from(h: Seq<SpecMessage>, i: int) -> Seq<Seq<char>>
    decreases h.len() - i when 0 <= i <= h.len()
{
    if i >= h.len() {
        Seq::empty()
    } else {
        (seq![""@, msg_line(h[i]), ""@] + if i + 1 < h.len() {
            seq!["---"@]
        } else {
            Seq::empty()
        }) + msg_blocks_from(h, i + 1)
    }
}

/// What showing the history prints: a notice when there is none, else a
/// header and the last ten messages, oldest first.
pub open spec fn render_history(h: Seq<SpecMessage>) -> Seq<Seq<char>> {
    if h.len() == 0 {
        seq!["No chat history"@]
    } else {
        let start = if h.len() > 10 {
            h.len() - 10
        } else {
            0
        };
        seq!["Showing last 10 messages"@] + msg_blocks_from(h, start as int)
    }
}

/// The two token-usage report lines.
pub open spec fn token_usage_lines(tin: int, tout: int) -> Seq<Seq<char>> {
    seq![
        "Total Input Tokens Used: "@ + dec_digits(tin as nat),
        "Total Output Tokens Used: "@ + dec_digits(tout as nat),
    ]
}

/// The notice shown when an imported session was found.
pub open spec fn import_found_line(id: u16) -> Seq<char> {
    "History with ID: "@ + dec_digits(id as nat) + " found!"@
}

/// The compaction report.
pub open spec fn compact_line(words: nat) -> Seq<char> {
    "Compaction completed in "@ + dec_digits(words) + " words"@
}

/// Renders the one line a message shows as.
fn render_msg_line(m: &Message) -> (r: String)
    requires
        wf_message(m@),
    ensures
        r@ == msg_line(m@),
{
    let mut out: Vec<char> = Vec::new();
    match m.role {
        Role::User => push_str_chars(&mut out, "*User*"),
        Role::Assistant => push_str_chars(&mut out, "*Assistant*"),
    }
    let part = &m.parts[0];
    proof {
        assert(crate::message::part_views(m.parts@)[0] == m.parts@[0]@);
    }
    if matches!(part.kind, PartKind::Text) {
        push_str_chars(&mut out, ": \"");
        let mut cs = chars_of(part.data.as_str());
        let long = cs.len() > 300;
        if long {
            cs.truncate(300);
        }
        let trimmed = trim_chars(&cs);
        push_chars(&mut out, &trimmed);
        if long {
            push_str_chars(&mut out, "...");
        }
        push_str_chars(&mut out, "\"");
        proof {
            assert(out@ =~= msg_line(m@));
        }
    } else {
        push_str_chars(&mut out, ": ");
        match part.kind {
            PartKind::Text => push_str_chars(&mut out, "*text*"),
            PartKind::Image => push_str_chars(&mut out, "*image*"),
            PartKind::Audio => push_str_chars(&mut out, "*audio*"),
            PartKind::Video => push_str_chars(&mut out, "*video*"),
            PartKind::Document => push_str_chars(&mut out, "*document*"),
            PartKind::ToolResult => push_str_chars(&mut out, "*tool result*"),
            PartKind::ToolCall => push_str_chars(&mut out, "*tool call*"),
            PartKind::Reasoning => push_str_chars(&mut out, "*reasoning*"),
        }
        proof {
            assert(out@ =~= msg_line(m@));
        }
    }
    chars_to_string(&out)
}

fn push_line(lines: &mut Vec<String>, text: &str)
    ensures
        line_views(final(lines)@) == line_views(old(lines)@).push(text@),
{
    let s = String::from_str(text);
    lines.push(s);
    proof {
        assert(line_views(lines@) =~= line_views(old(lines)@).push(text@));
    }
}

impl State {
    /// Empties the history and the pending input; everything else stays.
    pub fn clear_context(&mut self) -> (r: Vec<String>)
        ensures
            final(self)@ == (SpecState {
                history: Seq::empty(),
                input: SpecInput::Empty,
                ..old(self)@
            }),
            inv_state(old(self)@) ==> inv_state(final(self)@),
            line_views(r@) == seq!["Chat history cleared"@],
    {
        self.clear_history();
        self.clear_input();
        let mut lines: Vec<String> = Vec::new();
        push_line(&mut lines, "Chat history cleared");
        proof {
            assert(line_views(lines@) =~= seq!["Chat history cleared"@]);
        }
        lines
    }

    /// Shows the fixed command reference and clears the pending input.
    pub fn show_help_message(&mut self) -> (r: Vec<String>)
        ensures
            final(self)@ == (SpecState { input: SpecInput::Empty, ..old(self)@ }),
            inv_state(old(self)@) ==> inv_state(final(self)@),
            line_views(r@) == help_lines(),
    {
        self.clear_input();
        let mut lines: Vec<String> = Vec::new();
        push_line(&mut lines, "Commands:");
        push_line(&mut lines, "  /model     - switch between available models");
        push_line(&mut lines, "  /tokens    - show token usage");
        push_line(&mut lines, "  /history   - show last 10 messages from chat history");
        push_line(&mut lines, "  /save      - save chat history to file");
        push_line(&mut lines, "  /import    - import chat history from a saved file");
        push_line(&mut lines, "  /summarize - ask the agent to summarize the conversation");
        push_line(&mut lines, "  /compact   - condense conversation history");
        push_line(&mut lines, "  /clear     - clear chat history");
        push_line(&mut lines, "  /help      - list all available commands");
        push_line(&mut lines, "  /exit      - print farewell message and end the session");
        proof {
            assert(line_views(lines@) =~= help_lines());
        }
        lines
    }

    /// Reports the cumulative token counters and clears the pending input.
    pub fn show_token_usage(&mut self) -> (r: Vec<String>)
        requires
            inv_state(old(self)@),
        ensures
            final(self)@ == (SpecState { input: SpecInput::Empty, ..old(self)@ }),
            inv_state(final(self)@),
            line_views(r@) == token_usage_lines(
                old(self)@.total_input_tokens_used,
                old(self)@.total_output_tokens_used,
            ),
    {
        self.clear_input();
        let mut lines: Vec<String> = Vec::new();
        let mut a: Vec<char> = Vec::new();
        push_str_chars(&mut a, "Total Input Tokens Used: ");
        let tin = usize_to_chars(self.total_input_tokens_used());
        push_chars(&mut a, &tin);
        lines.push(chars_to_string(&a));
        let mut b: Vec<char> = Vec::new();
        push_str_chars(&mut b, "Total Output Tokens Used: ");
        let tout = usize_to_chars(self.total_output_tokens_used());
        push_chars(&mut b, &tout);
        lines.push(chars_to_string(&b));
        proof {
            assert(line_views(lines@) =~= token_usage_lines(
                old(self)@.total_input_tokens_used,
                old(self)@.total_output_tokens_used,
            ));
        }
        lines
    }

    /// Shows the last ten messages, oldest first, each cut to length; or
    /// a notice when there is no history. Clears the pending input.
    pub fn show_chat_history(&mut self) -> (r: Vec<String>)
        requires
            inv_state(old(self)@),
        ensures
            final(self)@ == (SpecState { input: SpecInput::Empty, ..old(self)@ }),
            inv_state(final(self)@),
            line_views(r@) == render_history(old(self)@.history),
    {
        self.clear_input();
        let ghost hs = self@.history;
        let mut lines: Vec<String> = Vec::new();
        let hist = self.history_vec();
        let n = hist.len();
        if n == 0 {
            push_line(&mut lines, "No chat history");
            proof {
                assert(line_views(lines@) =~= render_history(hs));
            }
            return lines;
        }
        push_line(&mut lines, "Showing last 10 messages");
        let start: usize = if n > 10 {
            n - 10
        } else {
            0
        };
        let mut i: usize = start;
        proof {
            assert(line_views(lines@) =~= seq!["Showing last 10 messages"@]);
        }
        while i < n
            invariant
                start <= i <= n,
                n == hist@.len(),
                hs == crate::message::message_views(hist@),
                inv_state(self@),
                hs == self@.history,
                line_views(lines@) + msg_blocks_from(hs, i as int) == seq![
                    "Showing last 10 messages"@,
                ] + msg_blocks_from(hs, start as int),
            decreases n - i,
        {
            proof {
                assert(crate::message::message_views(hist@)[i as int] == hist@[i as int]@);
            }
            let ghost l0 = line_views(lines@);
            push_line(&mut lines, "");
            let line = render_msg_line(&hist[i]);
            lines.push(line);
            proof {
                assert(line_views(lines@) =~= l0.push(""@).push(msg_line(hs[i as int])));
            }
            push_line(&mut lines, "");
            if i + 1 < n {
                push_line(&mut lines, "---");
                proof {
                    assert(line_views(lines@) =~= l0 + seq![
                        ""@,
                        msg_line(hs[i as int]),
                        ""@,
                        "---"@,
                    ]);
                    assert(seq![""@, msg_line(hs[i as int]), ""@] + seq!["---"@] =~= seq![
                        ""@,
                        msg_line(hs[i as int]),
                        ""@,
                        "---"@,
                    ]);
                    assert(line_views(lines@) + msg_blocks_from(hs, i as int + 1) =~= l0
                        + msg_blocks_from(hs, i as int));
                }
            } else {
                proof {
                    assert(line_views(lines@) =~= l0 + seq![""@, msg_line(hs[i as int]), ""@]);
                    assert(seq![""@, msg_line(hs[i as int]), ""@] + Seq::<Seq<char>>::empty()
                        =~= seq![""@, msg_line(hs[i as int]), ""@]);
                    assert(line_views(lines@) + msg_blocks_from(hs, i as int + 1) =~= l0
                        + msg_blocks_from(hs, i as int));
                }
            }
            i += 1;
        }
        proof {
            assert(msg_blocks_from(hs, n as int) =~= Seq::<Seq<char>>::empty());
            assert(line_views(lines@) =~= line_views(lines@) + Seq::<Seq<char>>::empty());
            assert(line_views(lines@) =~= render_history(hs));
        }
        lines
    }

    /// Serializes the history for the session's file; the caller writes
    /// it. Clears the pending input; the history itself stays.
    pub fn save_chat_history(&mut self) -> (r: (String, String, Vec<String>))
        requires
            inv_state(old(self)@),
        ensures
            final(self)@ == (SpecState { input: SpecInput::Empty, ..old(self)@ }),
            inv_state(final(self)@),
            r.0@ == chat_file_path_spec(old(self)@.id),
            r.1@ == enc_history(old(self)@.history),
            line_views(r.2@) == seq!["Saved chat history to the chats/ directory"@],
    {
        self.clear_input();
        let path = chat_file_path(self.id());
        let contents = encode_history(self.history_vec());
        let mut lines: Vec<String> = Vec::new();
        push_line(&mut lines, "Saved chat history to the chats/ directory");
        proof {
            assert(line_views(lines@) =~= seq!["Saved chat history to the chats/ directory"@]);
        }
        (path, contents, lines)
    }

    /// The exit handler: the session is saved and a farewell shown.
    pub fn exit_process(&mut self) -> (r: (String, String, Vec<String>))
        requires
            inv_state(old(self)@),
        ensures
            final(self)@ == (SpecState { input: SpecInput::Empty, ..old(self)@ }),
            inv_state(final(self)@),
            r.0@ == chat_file_path_spec(old(self)@.id),
            r.1@ == enc_history(old(self)@.history),
            line_views(r.2@) == seq![
                "Saved chat history to the chats/ directory"@,
                "Farewell!"@,
            ],
    {
        let (path, contents, mut lines) = self.save_chat_history();
        push_line(&mut lines, "Farewell!");
        proof {
            assert(line_views(lines@) =~= seq![
                "Saved chat history to the chats/ directory"@,
                "Farewell!"@,
            ]);
        }
        (path, contents, lines)
    }

    /// Takes a stored session's text, read by the caller (or nothing, if
    /// the file was not there), and appends its messages to the history.
    /// A missing or unparseable file changes nothing and is reported.
    pub fn append_history_from_text(&mut self, id: u16, content: Option<&str>) -> (r: Vec<String>)
        requires
            inv_state(old(self)@),
        ensures
            inv_state(final(self)@),
            match content {
                Option::Some(text) => match dec_history(text@) {
                    Option::Some(ms) => {
                        &&& final(self)@ == (SpecState {
                            history: old(self)@.history + ms,
                            input: SpecInput::Empty,
                            ..old(self)@
                        })
                        &&& line_views(r@) == seq![import_found_line(id)]
                    },
                    Option::None => {
                        &&& final(self)@ == (SpecState {
                            input: SpecInput::Empty,
                            ..old(self)@
                        })
                        &&& line_views(r@) == seq![
                            import_found_line(id),
                            "Failed to parse history file"@,
                        ]
                    },
                },
                Option::None => {
                    &&& final(self)@ == (SpecState { input: SpecInput::Empty, ..old(self)@ })
                    &&& line_views(r@) == seq!["Failed to get history: not found"@]
                },
            },
    {
        self.clear_input();
        let mut lines: Vec<String> = Vec::new();
        match content {
            Option::None => {
                push_line(&mut lines, "Failed to get history: not found");
                proof {
                    assert(line_views(lines@) =~= seq!["Failed to get history: not found"@]);
                }
                lines
            },
            Option::Some(text) => {
                let mut found: Vec<char> = Vec::new();
                push_str_chars(&mut found, "History with ID: ");
                let digits = usize_to_chars(id as usize);
                push_chars(&mut found, &digits);
                push_str_chars(&mut found, " found!");
                lines.push(chars_to_string(&found));
                match parse_history(text) {
                    Option::Some(msgs) => {
                        self.extend_history(msgs);
                        proof {
                            assert(line_views(lines@) =~= seq![import_found_line(id)]);
                        }
                        lines
                    },
                    Option::None => {
                        push_line(&mut lines, "Failed to parse history file");
                        proof {
                            assert(line_views(lines@) =~= seq![
                                import_found_line(id),
                                "Failed to parse history file"@,
                            ]);
                        }
                        lines
                    },
                }
            },
        }
    }

    /// Takes the full compaction reply and replaces the whole history
    /// with exactly one assistant message holding it; reports the reply's
    /// word count.
    pub fn compact_context(&mut self, response: String) -> (r: Vec<String>)
        requires
            inv_state(old(self)@),
        ensures
            final(self)@ == (SpecState {
                history: seq![assistant_message(response@)],
                input: SpecInput::Empty,
                ..old(self)@
            }),
            inv_state(final(self)@),
            line_views(r@) == seq![compact_line(word_count(response@))],
    {
        let cs = chars_of(response.as_str());
        let words = count_words(&cs);
        self.clear_input();
        self.clear_history();
        self.add_to_history(Message::assistant(response));
        let mut line: Vec<char> = Vec::new();
        push_str_chars(&mut line, "Compaction completed in ");
        let digits = usize_to_chars(words);
        push_chars(&mut line, &digits);
        push_str_chars(&mut line, " words");
        let mut lines: Vec<String> = Vec::new();
        lines.push(chars_to_string(&line));
        proof {
            assert(self@.history =~= seq![assistant_message(response@)]);
            assert(line_views(lines@) =~= seq![compact_line(word_count(response@))]);
        }
        lines
    }
}

/// What one classified line means while the model menu is open: a valid
/// 1-based index selects that entry, another message asks again, and any
/// command hands control back to the main loop.
#[derive(Debug, Clone, Copy, PartialEq, Eq, Structural)]
pub enum ModelChoice {
    Select(usize),
    AskAgain,
    Abort,
}

pub open spec fn switch_choice(inp: SpecInput, n: usize) -> ModelChoice {
    match inp {
        SpecInput::SendMessage(m) => if crate::text::is_selection_number(m) && 1 <= digits_val(
            crate::text::selection_digits(m),
        ) <= n {
            ModelChoice::Select((digits_val(crate::text::selection_digits(m)) - 1) as usize)
        } else {
            ModelChoice::AskAgain
        },
        _ => ModelChoice::Abort,
    }
}

/// Decides one round of the model-switch sub-loop from a classified line.
pub fn switch_model_choice(input: &Input, n_options: usize) -> (r: ModelChoice)
    requires
        n_options <= 0xFFFF_FFFF,
    ensures
        r == switch_choice(input@, n_options),
{
    match input {
        Input::SendMessage(m) => {
            let cs = chars_of(m.as_str());
            match parse_selection(&cs, n_options) {
                Option::Some(k) => ModelChoice::Select(k),
                Option::None => ModelChoice::AskAgain,
            }
        },
        _ => ModelChoice::Abort,
    }
}

/// What one raw line means during the startup model selection: a
/// canonical 1-based index picks that entry, the exit token leaves, and
/// anything else asks again.
#[derive(Debug, Clone, Copy, PartialEq, Eq, Structural)]
pub enum StartupChoice {
    Pick(usize),
    Quit,
    Retry,
}

pub open spec fn startup_choice(line: Seq<char>, n: usize) -> StartupChoice {
    let t = trim(line);
    if all_digits(t) && (t.len() == 1 || t[0] != '0') && 1 <= digits_val(t) <= n {
        StartupChoice::Pick((digits_val(t) - 1) as usize)
    } else if t == "/exit"@ {
        StartupChoice::Quit
    } else {
        StartupChoice::Retry
    }
}

/// Decides one round of the startup model selection from a raw line.
pub fn startup_model_choice(line: &str, n_options: usize) -> (r: StartupChoice)
    requires
        n_options <= 0xFFFF_FFFF,
    ensures
        r == startup_choice(line@, n_options),
{
    let cs = chars_of(line);
    let t = trim_chars(&cs);
    // The startup selection matches the index's exact decimal rendering:
    // no sign and no leading zero.
    let canonical = t.len() >= 1 && '0' <= t[0] && t[0] <= '9' && (t.len() == 1 || t[0] != '0');
    if canonical {
        if let Option::Some(k) = parse_selection(&t, n_options) {
            return StartupChoice::Pick(k);
        }
    }
    if chars_eq_str(&t, "/exit") {
        StartupChoice::Quit
    } else {
        StartupChoice::Retry
    }
}

/// The fixed compaction prompt.
pub fn compact_prompt() -> (r: &'static str)
    ensures
        r@
            == "Provide a concise context summary of our conversation that could be used to continue this chat. Include key decisions made, current task state, and any important details. Write it as a brief paragraph, not a list."@,
{
    "Provide a concise context summary of our conversation that could be used to continue this chat. Include key decisions made, current task state, and any important details. Write it as a brief paragraph, not a list."
}

/// The fixed summarization prompt.
pub fn summarize_prompt() -> (r: &'static str)
    ensures
        r@
            == "Summarize our conversation so far in 2-4 sentences. Focus on the key topics discussed and any conclusions reached."@,
{
    "Summarize our conversation so far in 2-4 sentences. Focus on the key topics discussed and any conclusions reached."
}

} // verus!
