//! The session state: the active model, the append-only message history,
//! the pending classified input, and the cumulative token counters; plus
//! the numeric session-ID allocation and the session file naming scheme.
use crate::anthropic::{model_views, ModelInfo, SpecModelInfo};
use crate::config::{Config, SpecConfig};
use crate::input::{Input, SpecInput};
use crate::message::{wf_history, wf_message, Message, SpecMessage};
use crate::text::{chars_to_string, dec_digits, push_str_chars, usize_to_chars};
use vstd::prelude::*;

verus! {

/// The directory persisted sessions live under.
pub const CHATS_DIR_NAME: &'static str = "chats";

/// All mutable state of the one active session.
pub struct State {
    id: u16,
    config: Config,
    model_options: Vec<ModelInfo>,
    model_index: usize,
    history: Vec<Message>,
    input: Input,
    total_input_tokens_used: usize,
    total_output_tokens_used: usize,
}

pub struct SpecState {
    pub id: u16,
    pub config: SpecConfig,
    pub model_options: Seq<SpecModelInfo>,
    pub model_index: int,
    pub history: Seq<SpecMessage>,
    pub input: SpecInput,
    pub total_input_tokens_used: int,
    pub total_output_tokens_used: int,
}

impl View for State {
    type V = SpecState;

    closed spec fn view(&self) -> SpecState {
        SpecState {
            id: self.id,
            config: self.config@,
            model_options: model_views(self.model_options@),
            model_index: self.model_index as int,
            history: crate::message::message_views(self.history@),
            input: self.input@,
            total_input_tokens_used: self.total_input_tokens_used as int,
            total_output_tokens_used: self.total_output_tokens_used as int,
        }
    }
}

/// The session invariant: the active model is a catalog entry, every
/// history message is well-formed, and the counters are machine numbers.
pub open spec fn inv_state(s: SpecState) -> bool {
    &&& 0 <= s.model_index < s.model_options.len()
    &&& wf_history(s.history)
    &&& 0 <= s.total_input_tokens_used <= usize::MAX
    &&& 0 <= s.total_output_tokens_used <= usize::MAX
}

impl State {
    /// A fresh session: the given identity, catalog and chosen model, an
    /// empty history, no pending input, zeroed counters.
    pub fn new(id: u16, config: Config, model_options: Vec<ModelInfo>, model_index: usize) -> (r:
        State)
        requires
            model_index < model_options@.len(),
        ensures
            r@.id == id,
            r@.config == config@,
            r@.model_options == model_views(model_options@),
            r@.model_index == model_index as int,
            r@.history == Seq::<SpecMessage>::empty(),
            r@.input == SpecInput::Empty,
            r@.total_input_tokens_used == 0,
            r@.total_output_tokens_used == 0,
            inv_state(r@),
    {
        let r = State {
            id,
            config,
            model_options,
            model_index,
            history: Vec::new(),
            input: Input::Empty,
            total_input_tokens_used: 0,
            total_output_tokens_used: 0,
        };
        proof {
            assert(r@.history =~= Seq::<SpecMessage>::empty());
        }
        r
    }

    pub fn id(&self) -> (r: u16)
        ensures
            r == self@.id,
    {
        self.id
    }

    pub fn config(&self) -> (r: &Config)
        ensures
            r@ == self@.config,
    {
        &self.config
    }

    pub fn model_options(&self) -> (r: &[ModelInfo])
        ensures
            model_views(r@) == self@.model_options,
    {
        self.model_options.as_slice()
    }

    /// The display name of the active model.
    pub fn model(&self) -> (r: &str)
        requires
            inv_state(self@),
        ensures
            r@ == self@.model_options[self@.model_index].display_name,
    {
        proof {
            assert(model_views(self.model_options@)[self.model_index as int]
                == self.model_options@[self.model_index as int]@);
        }
        self.model_options[self.model_index].display_name.as_str()
    }

    /// The catalog position of the active model.
    pub fn model_index(&self) -> (r: usize)
        ensures
            r as int == self@.model_index,
    {
        self.model_index
    }

    /// Rebinds the session to another catalog entry.
    pub fn set_agent(&mut self, model_index: usize)
        requires
            model_index < old(self)@.model_options.len(),
        ensures
            final(self)@ == (SpecState { model_index: model_index as int, ..old(self)@ }),
            inv_state(old(self)@) ==> inv_state(final(self)@),
    {
        self.model_index = model_index;
    }

    pub fn history(&self) -> (r: &[Message])
        ensures
            crate::message::message_views(r@) == self@.history,
    {
        self.history.as_slice()
    }

    /// The history as the vector it is kept in.
    pub fn history_vec(&self) -> (r: &Vec<Message>)
        ensures
            crate::message::message_views(r@) == self@.history,
    {
        &self.history
    }

    pub fn clear_history(&mut self)
        ensures
            final(self)@ == (SpecState { history: Seq::empty(), ..old(self)@ }),
            inv_state(old(self)@) ==> inv_state(final(self)@),
    {
        self.history.clear();
        proof {
            assert(self@.history =~= Seq::<SpecMessage>::empty());
        }
    }

    /// Appends one message; the history grows and nothing else moves.
    pub fn add_to_history(&mut self, message: Message)
        requires
            wf_message(message@),
        ensures
            final(self)@ == (SpecState {
                history: old(self)@.history.push(message@),
                ..old(self)@
            }),
            inv_state(old(self)@) ==> inv_state(final(self)@),
    {
        let ghost m = message@;
        self.history.push(message);
        proof {
            assert(crate::message::message_views(self.history@) =~= crate::message::message_views(
                old(self).history@,
            ).push(m));
        }
    }

    /// Appends a run of messages in order; used when importing a stored
    /// session.
    pub fn extend_history(&mut self, mut messages: Vec<Message>)
        requires
            wf_history(crate::message::message_views(messages@)),
        ensures
            final(self)@ == (SpecState {
                history: old(self)@.history + crate::message::message_views(messages@),
                ..old(self)@
            }),
            inv_state(old(self)@) ==> inv_state(final(self)@),
    {
        let ghost ms = crate::message::message_views(messages@);
        self.history.append(&mut messages);
        proof {
            assert(crate::message::message_views(self.history@) =~= crate::message::message_views(
                old(self).history@,
            ) + ms);
        }
    }

    pub fn input(&self) -> (r: &Input)
        ensures
            r@ == self@.input,
    {
        &self.input
    }

    /// Records a classified line as the pending input.
    pub fn set_input(&mut self, input: Input)
        ensures
            final(self)@ == (SpecState { input: input@, ..old(self)@ }),
            inv_state(old(self)@) ==> inv_state(final(self)@),
    {
        self.input = input;
    }

    /// Hands the pending input out and leaves none pending.
    pub fn take_input(&mut self) -> (r: Input)
        ensures
            r@ == old(self)@.input,
            final(self)@ == (SpecState { input: SpecInput::Empty, ..old(self)@ }),
            inv_state(old(self)@) ==> inv_state(final(self)@),
    {
        let mut taken = Input::Empty;
        core::mem::swap(&mut taken, &mut self.input);
        taken
    }

    pub fn clear_input(&mut self)
        ensures
            final(self)@ == (SpecState { input: SpecInput::Empty, ..old(self)@ }),
            inv_state(old(self)@) ==> inv_state(final(self)@),
    {
        self.input.clear();
    }

    pub fn total_input_tokens_used(&self) -> (r: usize)
        ensures
            r == self@.total_input_tokens_used,
    {
        self.total_input_tokens_used
    }

    /// Adds an input-token delta; the counter never decreases.
    pub fn add_input_tokens_used(&mut self, input_tokens: usize)
        requires
            old(self)@.total_input_tokens_used + input_tokens <= usize::MAX,
        ensures
            final(self)@ == (SpecState {
                total_input_tokens_used: old(self)@.total_input_tokens_used + input_tokens,
                ..old(self)@
            }),
            inv_state(old(self)@) ==> inv_state(final(self)@),
    {
        self.total_input_tokens_used = self.total_input_tokens_used + input_tokens;
    }

    pub fn total_output_tokens_used(&self) -> (r: usize)
        ensures
            r == self@.total_output_tokens_used,
    {
        self.total_output_tokens_used
    }

    /// Adds an output-token delta; the counter never decreases.
    pub fn add_output_tokens_used(&mut self, output_tokens: usize)
        requires
            old(self)@.total_output_tokens_used + output_tokens <= usize::MAX,
        ensures
            final(self)@ == (SpecState {
                total_output_tokens_used: old(self)@.total_output_tokens_used + output_tokens,
                ..old(self)@
            }),
            inv_state(old(self)@) ==> inv_state(final(self)@),
    {
        self.total_output_tokens_used = self.total_output_tokens_used + output_tokens;
    }
}

/// The smallest session identifier not yet taken, if any is free. The
/// whole space 0 through 65535 can be in use; then nothing is returned
/// and no session can start.
pub fn next_chat_id(used: &Vec<u16>) -> (r: Option<u16>)
    ensures
        match r {
            Option::Some(id) => !used@.contains(id) && forall|j: u16|
                j < id ==> used@.contains(j),
            Option::None => forall|j: u16| used@.contains(j),
        },
{
    let mut taken: Vec<bool> = Vec::new();
    let mut i: usize = 0;
    while i < 65536
        invariant
            i <= 65536,
            taken@.len() == i,
            forall|j: int| 0 <= j < i ==> !(#[trigger] taken@[j]),
        decreases 65536 - i,
    {
        taken.push(false);
        i += 1;
    }
    let mut k: usize = 0;
    while k < used.len()
        invariant
            k <= used@.len(),
            taken@.len() == 65536,
            forall|j: int|
                0 <= j < 65536 ==> (#[trigger] taken@[j] <==> used@.take(k as int).contains(
                    j as u16,
                )),
        decreases used@.len() - k,
    {
        let id = used[k];
        taken[id as usize] = true;
        proof {
            let prev = used@.take(k as int);
            let now = used@.take(k as int + 1);
            assert(now.drop_last() =~= prev);
            assert(now.last() == used@[k as int]);
            assert forall|j: int| 0 <= j < 65536 implies (#[trigger] taken@[j] <==> now.contains(
                j as u16,
            )) by {
                if now.contains(j as u16) {
                    let w = choose|w: int| 0 <= w < now.len() && now[w] == j as u16;
                    if w < k {
                        assert(prev.contains(j as u16));
                        assert(prev[w] == now[w]);
                    }
                }
                if prev.contains(j as u16) {
                    let w = choose|w: int| 0 <= w < prev.len() && prev[w] == j as u16;
                    assert(now[w] == prev[w]);
                    assert(now.contains(j as u16));
                }
                assert(now.contains(used@[k as int]));
            }
        }
        k += 1;
    }
    proof {
        assert(used@.take(used@.len() as int) =~= used@);
    }
    let mut id: usize = 0;
    while id < 65536
        invariant
            id <= 65536,
            taken@.len() == 65536,
            forall|j: int| 0 <= j < 65536 ==> (#[trigger] taken@[j] <==> used@.contains(j as u16)),
            forall|j: u16| j < id ==> used@.contains(j),
        decreases 65536 - id,
    {
        if !taken[id] {
            return Option::Some(id as u16);
        }
        proof {
            assert forall|j: u16| j < id + 1 implies used@.contains(j) by {
                assert(taken@[j as int]);
            }
        }
        id += 1;
    }
    proof {
        assert forall|j: u16| used@.contains(j) by {
            assert(taken@[j as int]);
        }
    }
    Option::None
}

pub open spec fn is_first_dot(name: Seq<char>, i: int) -> bool {
    &&& 0 <= i < name.len()
    &&& name[i] == '.'
    &&& forall|j: int| 0 <= j < i ==> name[j] != '.'
}

pub open spec fn is_last_dot(name: Seq<char>, i: int) -> bool {
    &&& 0 <= i < name.len()
    &&& name[i] == '.'
    &&& forall|j: int| i < j < name.len() ==> name[j] != '.'
}

/// The session a file name denotes, if any: its extension (after the
/// last dot) must be the session extension, and its base name (before
/// the first dot) must read as a 16-bit identifier.
pub open spec fn session_file_id(name: Seq<char>) -> Option<u16> {
    if exists|i: int| is_first_dot(name, i) {
        let f = choose|i: int| is_first_dot(name, i);
        let l = choose|i: int| is_last_dot(name, i);
        if name.skip(l + 1) == "json"@ {
            crate::text::parse_u16(name.take(f))
        } else {
            Option::None
        }
    } else {
        Option::None
    }
}

/// Reads a directory entry's file name as a persisted session, if it is
/// one.
pub fn session_id_of_filename(name: &str) -> (r: Option<u16>)
    ensures
        r == session_file_id(name@),
{
    let v = crate::text::chars_of(name);
    let n = v.len();
    let mut f: usize = 0;
    while f < n && v[f] != '.'
        invariant
            n == v@.len(),
            f <= n,
            v@ == name@,
            forall|j: int| 0 <= j < f ==> name@[j] != '.',
        decreases n - f,
    {
        f += 1;
    }
    if f == n {
        proof {
            assert(forall|i: int| !is_first_dot(name@, i));
        }
        return Option::None;
    }
    let mut l: usize = n - 1;
    while v[l] != '.'
        invariant
            n == v@.len(),
            v@ == name@,
            f <= l < n,
            name@[f as int] == '.',
            forall|j: int| l < j < n ==> name@[j] != '.',
        decreases l,
    {
        l -= 1;
    }
    proof {
        assert(is_first_dot(name@, f as int));
        assert(is_last_dot(name@, l as int));
        let cf = choose|i: int| is_first_dot(name@, i);
        assert(is_first_dot(name@, cf));
        if cf < f {
            assert(name@[cf] != '.');
        }
        if cf > f {
            assert(name@[f as int] != '.');
        }
        assert(cf == f as int);
        let cl = choose|i: int| is_last_dot(name@, i);
        assert(is_last_dot(name@, cl));
        if cl < l {
            assert(name@[l as int] != '.');
        }
        if cl > l {
            assert(name@[cl] != '.');
        }
        assert(cl == l as int);
        reveal_strlit("json");
    }
    let ext_ok = n - l == 5 && v[l + 1] == 'j' && v[l + 2] == 's' && v[l + 3] == 'o' && v[l + 4]
        == 'n';
    proof {
        let rest = name@.skip(l as int + 1);
        if ext_ok {
            assert(rest =~= "json"@);
        } else {
            if rest == "json"@ {
                assert(rest.len() == 4);
                assert(rest[0] == 'j' && rest[1] == 's' && rest[2] == 'o' && rest[3] == 'n');
                assert(name@[l as int + 1] == 'j' && name@[l as int + 2] == 's' && name@[l as int
                    + 3] == 'o' && name@[l as int + 4] == 'n');
            }
        }
    }
    if !ext_ok {
        return Option::None;
    }
    if f == 0 {
        proof {
            assert(name@.take(0).len() == 0);
            assert(!crate::text::all_digits(name@.take(0)));
        }
        return Option::None;
    }
    proof {
        assert(v@.subrange(0, f as int) == name@.take(f as int));
    }
    crate::text::parse_u16_range(&v, 0, f)
}

/// The path a session with a given identifier is stored under.
pub open spec fn chat_file_path_spec(id: u16) -> Seq<char> {
    "chats/"@ + dec_digits(id as nat) + ".json"@
}

/// Renders the path of a session file: the sessions directory, the
/// decimal identifier, and the session file extension.
pub fn chat_file_path(id: u16) -> (r: String)
    ensures
        r@ == chat_file_path_spec(id),
{
    let mut out: Vec<char> = Vec::new();
    push_str_chars(&mut out, "chats/");
    let digits = usize_to_chars(id as usize);
    crate::text::push_chars(&mut out, &digits);
    push_str_chars(&mut out, ".json");
    proof {
        assert(out@ =~= chat_file_path_spec(id));
    }
    chars_to_string(&out)
}

} // verus!
