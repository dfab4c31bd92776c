//! The conversation data model: a message is a role plus one or more
//! content parts. Text is the only part the runtime inspects; every other
//! kind carries an opaque payload that is preserved but not interpreted.
use vstd::prelude::*;

verus! {

#[derive(Debug, Clone, Copy, PartialEq, Eq, Structural)]
pub enum Role {
    User,
    Assistant,
}

#[derive(Debug, Clone, Copy, PartialEq, Eq, Structural)]
pub enum PartKind {
    Text,
    Image,
    Audio,
    Video,
    Document,
    ToolResult,
    ToolCall,
    Reasoning,
}

/// One content part: its kind and its payload. For `Text` the payload is
/// the text itself; for every other kind it is an opaque pass-through
/// datum.
#[derive(Debug, Clone, PartialEq)]
pub struct Part {
    pub kind: PartKind,
    pub data: String,
}

/// One conversation message. Once appended to a history it is never
/// changed.
#[derive(Debug, Clone, PartialEq)]
pub struct Message {
    pub role: Role,
    pub parts: Vec<Part>,
}

pub struct SpecPart {
    pub kind: PartKind,
    pub data: Seq<char>,
}

pub struct SpecMessage {
    pub role: Role,
    pub parts: Seq<SpecPart>,
}

impl View for Part {
    type V = SpecPart;

    open spec fn view(&self) -> SpecPart {
        SpecPart { kind: self.kind, data: self.data@ }
    }
}

/// The views of a sequence of parts.
pub open spec fn part_views(s: Seq<Part>) -> Seq<SpecPart> {
    s.map_values(|p: Part| p@)
}

impl View for Message {
    type V = SpecMessage;

    open spec fn view(&self) -> SpecMessage {
        SpecMessage { role: self.role, parts: part_views(self.parts@) }
    }
}

/// The views of a sequence of messages.
pub open spec fn message_views(s: Seq<Message>) -> Seq<SpecMessage> {
    s.map_values(|m: Message| m@)
}

/// A message is well-formed when it has at least one content part.
pub open spec fn wf_message(m: SpecMessage) -> bool {
    m.parts.len() >= 1
}

pub open spec fn wf_history(h: Seq<SpecMessage>) -> bool {
    forall|i: int| 0 <= i < h.len() ==> wf_message(#[trigger] h[i])
}

/// The message a plain user text turn makes.
pub open spec fn user_message(t: Seq<char>) -> SpecMessage {
    SpecMessage { role: Role::User, parts: seq![SpecPart { kind: PartKind::Text, data: t }] }
}

/// The message a plain assistant text reply makes.
pub open spec fn assistant_message(t: Seq<char>) -> SpecMessage {
    SpecMessage { role: Role::Assistant, parts: seq![SpecPart { kind: PartKind::Text, data: t }] }
}

impl Message {
    /// A user message holding one text part.
    pub fn user(text: String) -> (r: Message)
        ensures
            r@ == user_message(text@),
            wf_message(r@),
    {
        let mut parts: Vec<Part> = Vec::new();
        parts.push(Part { kind: PartKind::Text, data: text });
        let r = Message { role: Role::User, parts };
        proof {
            assert(r@.parts =~= user_message(text@).parts);
        }
        r
    }

    /// An assistant message holding one text part.
    pub fn assistant(text: String) -> (r: Message)
        ensures
            r@ == assistant_message(text@),
            wf_message(r@),
    {
        let mut parts: Vec<Part> = Vec::new();
        parts.push(Part { kind: PartKind::Text, data: text });
        let r = Message { role: Role::Assistant, parts };
        proof {
            assert(r@.parts =~= assistant_message(text@).parts);
        }
        r
    }

    /// A message of any role and kind; the payload of a non-text part is
    /// carried opaquely.
    pub fn with_part(role: Role, kind: PartKind, data: String) -> (r: Message)
        ensures
            r@ == (SpecMessage {
                role,
                parts: seq![SpecPart { kind, data: data@ }],
            }),
            wf_message(r@),
    {
        let mut parts: Vec<Part> = Vec::new();
        parts.push(Part { kind, data });
        let r = Message { role, parts };
        proof {
            assert(r@.parts =~= seq![SpecPart { kind, data: data@ }]);
        }
        r
    }
}

} // verus!
