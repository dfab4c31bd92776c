//! Classification of one raw input line into a command or a plain message.
//!
//! Classification is total: the line is trimmed and lower-cased for
//! comparison, matched against the fixed command tokens in a fixed
//! precedence, and anything else non-empty becomes a message.
use crate::text::{
    chars_contain_str, chars_eq_str, chars_of, chars_to_string, first_id_in_chars, first_id_token,
    lower, lower_char, seq_contains, tokens, trim, trim_chars, lower_chars, is_space,
};
use vstd::prelude::*;

verus! {

/// What one line of input asks for. `Empty` stands for a blank line.
#[derive(Debug, Clone)]
pub enum Input {
    ExitProcess,
    ShowChatHistory,
    SaveChatHistory,
    ImportChatHistory(u16),
    ShowTokenUsage,
    ClearContext,
    SwitchModel,
    ShowHelpMessage,
    ShowContextSummary,
    CompactContext,
    SendMessage(String),
    Empty,
}

/// The mathematical image of `Input`: the message payload is a character
/// sequence.
pub enum SpecInput {
    ExitProcess,
    ShowChatHistory,
    SaveChatHistory,
    ImportChatHistory(u16),
    ShowTokenUsage,
    ClearContext,
    SwitchModel,
    ShowHelpMessage,
    ShowContextSummary,
    CompactContext,
    SendMessage(Seq<char>),
    Empty,
}

impl View for Input {
    type V = SpecInput;

    open spec fn view(&self) -> SpecInput {
        match self {
            Input::ExitProcess => SpecInput::ExitProcess,
            Input::ShowChatHistory => SpecInput::ShowChatHistory,
            Input::SaveChatHistory => SpecInput::SaveChatHistory,
            Input::ImportChatHistory(id) => SpecInput::ImportChatHistory(*id),
            Input::ShowTokenUsage => SpecInput::ShowTokenUsage,
            Input::ClearContext => SpecInput::ClearContext,
            Input::SwitchModel => SpecInput::SwitchModel,
            Input::ShowHelpMessage => SpecInput::ShowHelpMessage,
            Input::ShowContextSummary => SpecInput::ShowContextSummary,
            Input::CompactContext => SpecInput::CompactContext,
            Input::SendMessage(s) => SpecInput::SendMessage(s@),
            Input::Empty => SpecInput::Empty,
        }
    }
}

/// Whether a trimmed, lower-cased line reads as one of the recognized
/// command forms.
pub open spec fn is_command(t: Seq<char>) -> bool {
    ||| t == "/exit"@
    ||| t == "/history"@
    ||| t == "/save"@
    ||| (seq_contains(t, "/import"@) && first_id_token(tokens(t)) is Some)
    ||| t == "/tokens"@
    ||| t == "/clear"@
    ||| t == "/model"@
    ||| t == "/help"@
    ||| t == "/summarize"@
    ||| t == "/compact"@
}

/// Total classification of a raw line. The line is trimmed, and
/// lower-cased for the comparisons only: a message carries the trimmed
/// text in its original casing. First match wins, in this exact
/// precedence.
pub open spec fn classify(s: Seq<char>) -> SpecInput {
    let t = lower(trim(s));
    if t == "/exit"@ {
        SpecInput::ExitProcess
    } else if t == "/history"@ {
        SpecInput::ShowChatHistory
    } else if t == "/save"@ {
        SpecInput::SaveChatHistory
    } else if seq_contains(t, "/import"@) && first_id_token(tokens(t)) is Some {
        SpecInput::ImportChatHistory(first_id_token(tokens(t))->0)
    } else if t == "/tokens"@ {
        SpecInput::ShowTokenUsage
    } else if t == "/clear"@ {
        SpecInput::ClearContext
    } else if t == "/model"@ {
        SpecInput::SwitchModel
    } else if t == "/help"@ {
        SpecInput::ShowHelpMessage
    } else if t == "/summarize"@ {
        SpecInput::ShowContextSummary
    } else if t == "/compact"@ {
        SpecInput::CompactContext
    } else if t.len() == 0 {
        SpecInput::Empty
    } else {
        SpecInput::SendMessage(trim(s))
    }
}

impl Input {
    /// Classifies one raw line. Classification is total and raises no
    /// error; a message carries the trimmed text with its casing kept.
    pub fn from_line(line: &str) -> (r: Input)
        ensures
            r@ == classify(line@),
    {
        let cs = chars_of(line);
        let trimmed = trim_chars(&cs);
        let t = lower_chars(&trimmed);
        if chars_eq_str(&t, "/exit") {
            return Input::ExitProcess;
        }
        if chars_eq_str(&t, "/history") {
            return Input::ShowChatHistory;
        }
        if chars_eq_str(&t, "/save") {
            return Input::SaveChatHistory;
        }
        if chars_contain_str(&t, "/import") {
            if let Option::Some(id) = first_id_in_chars(&t) {
                return Input::ImportChatHistory(id);
            }
        }
        if chars_eq_str(&t, "/tokens") {
            return Input::ShowTokenUsage;
        }
        if chars_eq_str(&t, "/clear") {
            return Input::ClearContext;
        }
        if chars_eq_str(&t, "/model") {
            return Input::SwitchModel;
        }
        if chars_eq_str(&t, "/help") {
            return Input::ShowHelpMessage;
        }
        if chars_eq_str(&t, "/summarize") {
            return Input::ShowContextSummary;
        }
        if chars_eq_str(&t, "/compact") {
            return Input::CompactContext;
        }
        if t.len() == 0 {
            return Input::Empty;
        }
        Input::SendMessage(chars_to_string(&trimmed))
    }

    pub fn new() -> (r: Self)
        ensures
            r@ == SpecInput::Empty,
    {
        Self::default()
    }

    /// Resets the pending input to the blank classification.
    pub fn clear(&mut self)
        ensures
            final(self)@ == SpecInput::Empty,
    {
        *self = Input::Empty;
    }

    /// Whether this is the blank classification.
    pub fn is_none(&self) -> (r: bool)
        ensures
            r == (self@ == SpecInput::Empty),
    {
        matches!(self, Input::Empty)
    }
}

impl Default for Input {
    fn default() -> (r: Self)
        ensures
            r@ == SpecInput::Empty,
    {
        Input::Empty
    }
}

/// Lower-casing is idempotent.
proof fn lemma_lower_idempotent(s: Seq<char>)
    ensures
        lower(lower(s)) == lower(s),
{
    assert(lower(lower(s)) =~= lower(s));
}

/// Trimming and lower-casing commute.
proof fn lemma_trim_lower(s: Seq<char>)
    ensures
        trim(lower(s)) == lower(trim(s)),
    decreases s.len(),
{
    if s.len() == 0 {
        assert(lower(s) =~= s);
    } else if is_space(s[0]) {
        lemma_trim_lower(s.drop_first());
        assert(lower(s)[0] == lower_char(s[0]));
        assert(lower(s).drop_first() =~= lower(s.drop_first()));
    } else if is_space(s[s.len() - 1]) {
        lemma_trim_lower(s.drop_last());
        assert(lower(s)[s.len() - 1] == lower_char(s[s.len() - 1]));
        assert(!is_space(lower(s)[0]));
        assert(lower(s).drop_last() =~= lower(s.drop_last()));
    } else {
        assert(!is_space(lower(s)[0]));
        assert(!is_space(lower(s)[s.len() - 1]));
    }
}

/// A trimmed sequence has no leading or trailing whitespace.
proof fn lemma_trim_ends(s: Seq<char>)
    ensures
        trim(s).len() > 0 ==> !is_space(trim(s)[0]),
        trim(s).len() > 0 ==> !is_space(trim(s)[trim(s).len() - 1]),
    decreases s.len(),
{
    if s.len() > 0 {
        if is_space(s[0]) {
            lemma_trim_ends(s.drop_first());
        } else if is_space(s[s.len() - 1]) {
            lemma_trim_ends(s.drop_last());
        }
    }
}

/// Trimming is idempotent.
proof fn lemma_trim_idempotent(s: Seq<char>)
    ensures
        trim(trim(s)) == trim(s),
{
    lemma_trim_ends(s);
}

/// Command recognition sees through letter-casing and surrounding
/// whitespace: every line whose canonical trimmed, lower-cased form reads
/// as a command classifies exactly as that canonical form does.
pub proof fn lemma_classify_canonical(s: Seq<char>)
    requires
        is_command(lower(trim(s))),
    ensures
        classify(s) == classify(lower(trim(s))),
{
    let t = lower(trim(s));
    lemma_trim_lower(trim(s));
    lemma_trim_idempotent(s);
    lemma_lower_idempotent(trim(s));
    assert(lower(trim(t)) == t);
}

/// Every non-empty line that matches no command form classifies as a
/// message carrying the trimmed text, casing kept.
pub proof fn lemma_classify_message(s: Seq<char>)
    requires
        !is_command(lower(trim(s))),
        trim(s).len() != 0,
    ensures
        classify(s) == SpecInput::SendMessage(trim(s)),
{
}

/// A line whose tokens hold no parseable 16-bit identifier never
/// classifies as an import, whatever else it holds.
pub proof fn lemma_import_needs_id(s: Seq<char>)
    requires
        first_id_token(tokens(lower(trim(s)))) is None,
    ensures
        !(classify(s) is ImportChatHistory),
{
}

} // verus!
