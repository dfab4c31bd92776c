//! The streaming accumulator: a turn's reply arrives as a lazy, finite
//! sequence of events, consumed one at a time. Each event is folded into
//! the session state and tells the caller what to show. A transport error
//! simply ends consumption early; whatever was folded in stays.
use crate::chat::{inv_state, SpecState, State};
use crate::message::{assistant_message, user_message, Message};
use crate::text::trim;
use vstd::prelude::*;

verus! {

/// One incremental reply event from the completion engine.
#[derive(Debug, Clone)]
pub enum StreamEvent {
    /// A fragment of reply text, to appear immediately.
    TextFragment(String),
    /// The closing usage report: an output-token delta, and an
    /// input-token delta when the engine sends one.
    FinalUsage { output_tokens: usize, input_tokens: Option<usize> },
    /// The consolidated reply, signalling turn completion.
    FinalResponse(String),
    /// Any event kind the runtime does not interpret.
    OtherKind,
}

pub enum SpecStreamEvent {
    TextFragment(Seq<char>),
    FinalUsage { output_tokens: usize, input_tokens: Option<usize> },
    FinalResponse(Seq<char>),
    OtherKind,
}

impl View for StreamEvent {
    type V = SpecStreamEvent;

    open spec fn view(&self) -> SpecStreamEvent {
        match self {
            StreamEvent::TextFragment(t) => SpecStreamEvent::TextFragment(t@),
            StreamEvent::FinalUsage { output_tokens, input_tokens } =>
                SpecStreamEvent::FinalUsage {
                output_tokens: *output_tokens,
                input_tokens: *input_tokens,
            },
            StreamEvent::FinalResponse(t) => SpecStreamEvent::FinalResponse(t@),
            StreamEvent::OtherKind => SpecStreamEvent::OtherKind,
        }
    }
}

/// What the caller must show for one consumed event: a text chunk written
/// without buffering, a line break closing the printed text, or nothing.
#[derive(Debug)]
pub enum StreamEffect {
    PrintChunk(String),
    EndLine,
    Silent,
}

pub enum SpecStreamEffect {
    PrintChunk(Seq<char>),
    EndLine,
    Silent,
}

impl View for StreamEffect {
    type V = SpecStreamEffect;

    open spec fn view(&self) -> SpecStreamEffect {
        match self {
            StreamEffect::PrintChunk(t) => SpecStreamEffect::PrintChunk(t@),
            StreamEffect::EndLine => SpecStreamEffect::EndLine,
            StreamEffect::Silent => SpecStreamEffect::Silent,
        }
    }
}

/// How one event changes the session: usage deltas raise the counters, a
/// final response appends one assistant message, everything else leaves
/// the session as it is.
pub open spec fn apply_event(s: SpecState, ev: SpecStreamEvent) -> SpecState {
    match ev {
        SpecStreamEvent::TextFragment(_) => s,
        SpecStreamEvent::FinalUsage { output_tokens, input_tokens } => SpecState {
            total_output_tokens_used: s.total_output_tokens_used + output_tokens,
            total_input_tokens_used: s.total_input_tokens_used + (match input_tokens {
                Option::Some(n) => n as int,
                Option::None => 0,
            }),
            ..s
        },
        SpecStreamEvent::FinalResponse(t) => SpecState {
            history: s.history.push(assistant_message(t)),
            ..s
        },
        SpecStreamEvent::OtherKind => s,
    }
}

/// What one event shows: a fragment with non-whitespace content appears
/// as it is, the usage report closes the line, all else is silent.
pub open spec fn event_effect(ev: SpecStreamEvent) -> SpecStreamEffect {
    match ev {
        SpecStreamEvent::TextFragment(t) => if trim(t).len() != 0 {
            SpecStreamEffect::PrintChunk(t)
        } else {
            SpecStreamEffect::Silent
        },
        SpecStreamEvent::FinalUsage { .. } => SpecStreamEffect::EndLine,
        _ => SpecStreamEffect::Silent,
    }
}

/// Whether the counters stay machine numbers when an event is folded in.
pub open spec fn event_fits(s: SpecState, ev: SpecStreamEvent) -> bool {
    match ev {
        SpecStreamEvent::FinalUsage { output_tokens, input_tokens } => {
            &&& s.total_output_tokens_used + output_tokens <= usize::MAX
            &&& s.total_input_tokens_used + (match input_tokens {
                Option::Some(n) => n as int,
                Option::None => 0,
            }) <= usize::MAX
        },
        _ => true,
    }
}

impl State {
    /// Opens a streamed turn for an outbound user message: the message
    /// joins the history before any reply event is consumed.
    pub fn begin_stream_turn(&mut self, text: String)
        ensures
            final(self)@ == (SpecState {
                history: old(self)@.history.push(user_message(text@)),
                ..old(self)@
            }),
            inv_state(old(self)@) ==> inv_state(final(self)@),
    {
        self.add_to_history(Message::user(text));
    }

    /// Folds one reply event into the session and says what to show.
    pub fn apply_stream_event(&mut self, event: StreamEvent) -> (eff: StreamEffect)
        requires
            event_fits(old(self)@, event@),
        ensures
            final(self)@ == apply_event(old(self)@, event@),
            eff@ == event_effect(event@),
            inv_state(old(self)@) ==> inv_state(final(self)@),
    {
        match event {
            StreamEvent::TextFragment(t) => {
                let cs = crate::text::chars_of(t.as_str());
                let trimmed = crate::text::trim_chars(&cs);
                if trimmed.len() != 0 {
                    StreamEffect::PrintChunk(t)
                } else {
                    StreamEffect::Silent
                }
            },
            StreamEvent::FinalUsage { output_tokens, input_tokens } => {
                self.add_output_tokens_used(output_tokens);
                if let Option::Some(n) = input_tokens {
                    self.add_input_tokens_used(n);
                }
                StreamEffect::EndLine
            },
            StreamEvent::FinalResponse(t) => {
                self.add_to_history(Message::assistant(t));
                StreamEffect::Silent
            },
            StreamEvent::OtherKind => StreamEffect::Silent,
        }
    }
}

/// The fold of a whole event sequence.
pub open spec fn apply_events(s: SpecState, evs: Seq<SpecStreamEvent>) -> SpecState
    decreases evs.len(),
{
    if evs.len() == 0 {
        s
    } else {
        apply_events(apply_event(s, evs[0]), evs.drop_first())
    }
}

/// The sum of the output-token deltas of the usage events.
pub open spec fn sum_output(evs: Seq<SpecStreamEvent>) -> int
    decreases evs.len(),
{
    if evs.len() == 0 {
        0
    } else {
        (match evs[0] {
            SpecStreamEvent::FinalUsage { output_tokens, .. } => output_tokens as int,
            _ => 0,
        }) + sum_output(evs.drop_first())
    }
}

/// The sum of the input-token deltas that were present.
pub open spec fn sum_input(evs: Seq<SpecStreamEvent>) -> int
    decreases evs.len(),
{
    if evs.len() == 0 {
        0
    } else {
        (match evs[0] {
            SpecStreamEvent::FinalUsage { input_tokens: Option::Some(n), .. } => n as int,
            _ => 0,
        }) + sum_input(evs.drop_first())
    }
}

/// Token counters only increase, and account exactly for what streamed
/// by: after any sequence of reply events, the output counter has grown
/// by exactly the sum of the output-token deltas, and the input counter
/// by exactly the sum of the input-token deltas that were present.
pub proof fn lemma_token_accounting(s: SpecState, evs: Seq<SpecStreamEvent>)
    ensures
        apply_events(s, evs).total_output_tokens_used == s.total_output_tokens_used + sum_output(
            evs,
        ),
        apply_events(s, evs).total_input_tokens_used == s.total_input_tokens_used + sum_input(evs),
        sum_output(evs) >= 0,
        sum_input(evs) >= 0,
    decreases evs.len(),
{
    if evs.len() > 0 {
        lemma_token_accounting(apply_event(s, evs[0]), evs.drop_first());
    }
}

/// A streamed turn never rewrites what already stands: after any sequence
/// of reply events the history still begins with every message it began
/// with, in the same order.
pub proof fn lemma_history_append_only(s: SpecState, evs: Seq<SpecStreamEvent>)
    ensures
        apply_events(s, evs).history.len() >= s.history.len(),
        apply_events(s, evs).history.take(s.history.len() as int) == s.history,
    decreases evs.len(),
{
    assert(s.history.take(s.history.len() as int) =~= s.history);
    if evs.len() > 0 {
        let s1 = apply_event(s, evs[0]);
        lemma_history_append_only(s1, evs.drop_first());
        assert(s1.history.take(s.history.len() as int) =~= s.history);
        assert(apply_events(s, evs).history.take(s.history.len() as int) =~= apply_events(
            s,
            evs,
        ).history.take(s1.history.len() as int).take(s.history.len() as int));
    }
}

} // verus!
