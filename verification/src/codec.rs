//! The persisted form of a conversation: a human-readable JSON-shaped
//! rendering of the message sequence, one message record per line, and the
//! strict parser for it. Decoding an encoded history yields the original
//! history exactly; the round trip is proved below.
use crate::message::{
    message_views, part_views, wf_history, wf_message, Message, Part, PartKind, Role, SpecMessage,
    SpecPart,
};
use crate::text::{chars_eq_str, chars_of, chars_to_string, push_str_chars};
use vstd::prelude::*;

verus! {

broadcast use vstd::string::group_string_axioms;

/// Escapes one character for inclusion in a quoted payload: quote and
/// backslash get a backslash prefix, everything else stands as itself.
pub open spec fn esc1(c: char) -> Seq<char> {
    if c == '"' || c == '\\' {
        seq!['\\', c]
    } else {
        seq![c]
    }
}

/// Escapes a payload.
pub open spec fn esc(s: Seq<char>) -> Seq<char>
    decreases s.len(),
{
    if s.len() == 0 {
        Seq::empty()
    } else {
        esc1(s[0]) + esc(s.drop_first())
    }
}

/// The name a part kind is stored under.
pub open spec fn kind_name(k: PartKind) -> Seq<char> {
    match k {
        PartKind::Text => "text"@,
        PartKind::Image => "image"@,
        PartKind::Audio => "audio"@,
        PartKind::Video => "video"@,
        PartKind::Document => "document"@,
        PartKind::ToolResult => "tool_result"@,
        PartKind::ToolCall => "tool_call"@,
        PartKind::Reasoning => "reasoning"@,
    }
}

/// The part kind a stored name denotes, if any.
pub open spec fn kind_of_name(n: Seq<char>) -> Option<PartKind> {
    if n == "text"@ {
        Option::Some(PartKind::Text)
    } else if n == "image"@ {
        Option::Some(PartKind::Image)
    } else if n == "audio"@ {
        Option::Some(PartKind::Audio)
    } else if n == "video"@ {
        Option::Some(PartKind::Video)
    } else if n == "document"@ {
        Option::Some(PartKind::Document)
    } else if n == "tool_result"@ {
        Option::Some(PartKind::ToolResult)
    } else if n == "tool_call"@ {
        Option::Some(PartKind::ToolCall)
    } else if n == "reasoning"@ {
        Option::Some(PartKind::Reasoning)
    } else {
        Option::None
    }
}

/// The name a role is stored under.
pub open spec fn role_name(r: Role) -> Seq<char> {
    match r {
        Role::User => "user"@,
        Role::Assistant => "assistant"@,
    }
}

/// The role a stored name denotes, if any.
pub open spec fn role_of_name(n: Seq<char>) -> Option<Role> {
    if n == "user"@ {
        Option::Some(Role::User)
    } else if n == "assistant"@ {
        Option::Some(Role::Assistant)
    } else {
        Option::None
    }
}

/// The stored form of one content part.
pub open spec fn enc_part(p: SpecPart) -> Seq<char> {
    "{\"kind\":\""@ + kind_name(p.kind) + "\",\"data\":\""@ + esc(p.data) + "\"}"@
}

/// The stored form of the parts after the first, each preceded by a comma.
pub open spec fn enc_parts_from(ps: Seq<SpecPart>, i: int) -> Seq<char>
    decreases ps.len() - i when 0 <= i <= ps.len()
{
    if i >= ps.len() {
        Seq::empty()
    } else {
        ","@ + enc_part(ps[i]) + enc_parts_from(ps, i + 1)
    }
}

/// The stored form of a non-empty part list.
pub open spec fn enc_parts(ps: Seq<SpecPart>) -> Seq<char> {
    enc_part(ps[0]) + enc_parts_from(ps, 1)
}

/// The stored form of one message record.
pub open spec fn enc_msg(m: SpecMessage) -> Seq<char> {
    "{\"role\":\""@ + role_name(m.role) + "\",\"parts\":["@ + enc_parts(m.parts) + "]}"@
}

/// The stored forms of the messages after the first, each on a new line
/// after a comma.
pub open spec fn enc_msgs_from(h: Seq<SpecMessage>, i: int) -> Seq<char>
    decreases h.len() - i when 0 <= i <= h.len()
{
    if i >= h.len() {
        Seq::empty()
    } else {
        ",\n"@ + enc_msg(h[i]) + enc_msgs_from(h, i + 1)
    }
}

/// The stored form of a whole history: a bracketed list with one message
/// record per line.
pub open spec fn enc_history(h: Seq<SpecMessage>) -> Seq<char> {
    if h.len() == 0 {
        "[]"@
    } else {
        "[\n"@ + enc_msg(h[0]) + enc_msgs_from(h, 1) + "\n]"@
    }
}

/// Consumes an exact literal prefix.
pub open spec fn dec_lit(s: Seq<char>, l: Seq<char>) -> Option<Seq<char>> {
    if l.len() <= s.len() && s.take(l.len() as int) == l {
        Option::Some(s.skip(l.len() as int))
    } else {
        Option::None
    }
}

/// Consumes a quoted payload up to and including its closing quote,
/// undoing the escaping; yields the payload and the rest.
pub open spec fn dec_str(s: Seq<char>) -> Option<(Seq<char>, Seq<char>)>
    decreases s.len(),
{
    if s.len() == 0 {
        Option::None
    } else if s[0] == '"' {
        Option::Some((Seq::empty(), s.drop_first()))
    } else if s[0] == '\\' {
        if s.len() >= 2 && (s[1] == '"' || s[1] == '\\') {
            match dec_str(s.skip(2)) {
                Option::Some((t, r)) => Option::Some((seq![s[1]] + t, r)),
                Option::None => Option::None,
            }
        } else {
            Option::None
        }
    } else {
        match dec_str(s.drop_first()) {
            Option::Some((t, r)) => Option::Some((seq![s[0]] + t, r)),
            Option::None => Option::None,
        }
    }
}

/// Consumes one stored part record.
pub open spec fn dec_part(s: Seq<char>) -> Option<(SpecPart, Seq<char>)> {
    match dec_lit(s, "{\"kind\":\""@) {
        Option::None => Option::None,
        Option::Some(s1) => match dec_str(s1) {
            Option::None => Option::None,
            Option::Some((kn, s2)) => match kind_of_name(kn) {
                Option::None => Option::None,
                Option::Some(kind) => match dec_lit(s2, ",\"data\":\""@) {
                    Option::None => Option::None,
                    Option::Some(s3) => match dec_str(s3) {
                        Option::None => Option::None,
                        Option::Some((data, s4)) => match dec_lit(s4, "}"@) {
                            Option::None => Option::None,
                            Option::Some(s5) => Option::Some((SpecPart { kind, data }, s5)),
                        },
                    },
                },
            },
        },
    }
}

/// Consumes one or more comma-separated part records.
pub open spec fn dec_parts(s: Seq<char>) -> Option<(Seq<SpecPart>, Seq<char>)>
    decreases s.len(), 1int
{
    match dec_part(s) {
        Option::None => Option::None,
        Option::Some((p, r)) => if r.len() < s.len() {
            match dec_parts_tail(r) {
                Option::None => Option::None,
                Option::Some((ps, r2)) => Option::Some((seq![p] + ps, r2)),
            }
        } else {
            Option::None
        },
    }
}

/// Consumes the `,`-prefixed part records that follow, stopping before
/// anything else.
pub open spec fn dec_parts_tail(s: Seq<char>) -> Option<(Seq<SpecPart>, Seq<char>)>
    decreases s.len(), 0int
{
    if s.len() > 0 && s[0] == ',' {
        match dec_parts(s.drop_first()) {
            Option::None => Option::None,
            Option::Some((ps, r)) => Option::Some((ps, r)),
        }
    } else {
        Option::Some((Seq::empty(), s))
    }
}

/// Consumes one stored message record.
pub open spec fn dec_msg(s: Seq<char>) -> Option<(SpecMessage, Seq<char>)> {
    match dec_lit(s, "{\"role\":\""@) {
        Option::None => Option::None,
        Option::Some(s1) => match dec_str(s1) {
            Option::None => Option::None,
            Option::Some((rn, s2)) => match role_of_name(rn) {
                Option::None => Option::None,
                Option::Some(role) => match dec_lit(s2, ",\"parts\":["@) {
                    Option::None => Option::None,
                    Option::Some(s3) => match dec_parts(s3) {
                        Option::None => Option::None,
                        Option::Some((parts, s4)) => match dec_lit(s4, "]}"@) {
                            Option::None => Option::None,
                            Option::Some(s5) => Option::Some(
                                (SpecMessage { role, parts }, s5),
                            ),
                        },
                    },
                },
            },
        },
    }
}

/// Consumes one or more line-separated message records.
pub open spec fn dec_msgs(s: Seq<char>) -> Option<(Seq<SpecMessage>, Seq<char>)>
    decreases s.len(), 1int
{
    match dec_msg(s) {
        Option::None => Option::None,
        Option::Some((m, r)) => if r.len() < s.len() {
            match dec_msgs_tail(r) {
                Option::None => Option::None,
                Option::Some((ms, r2)) => Option::Some((seq![m] + ms, r2)),
            }
        } else {
            Option::None
        },
    }
}

/// Consumes the `,`-and-newline-prefixed message records that follow.
pub open spec fn dec_msgs_tail(s: Seq<char>) -> Option<(Seq<SpecMessage>, Seq<char>)>
    decreases s.len(), 0int
{
    if s.len() >= 2 && s[0] == ',' && s[1] == '\n' {
        match dec_msgs(s.skip(2)) {
            Option::None => Option::None,
            Option::Some((ms, r)) => Option::Some((ms, r)),
        }
    } else {
        Option::Some((Seq::empty(), s))
    }
}

/// Decodes a whole stored history. Strict: accepts exactly the stored
/// form and nothing else.
pub open spec fn dec_history(s: Seq<char>) -> Option<Seq<SpecMessage>> {
    if s == "[]"@ {
        Option::Some(Seq::empty())
    } else {
        match dec_lit(s, "[\n"@) {
            Option::None => Option::None,
            Option::Some(s1) => match dec_msgs(s1) {
                Option::None => Option::None,
                Option::Some((ms, r)) => if r == "\n]"@ {
                    Option::Some(ms)
                } else {
                    Option::None
                },
            },
        }
    }
}

proof fn lemma_dec_lit(l: Seq<char>, rest: Seq<char>)
    ensures
        dec_lit(l + rest, l) == Option::Some(rest),
{
    let s = l + rest;
    assert(s.take(l.len() as int) =~= l);
    assert(s.skip(l.len() as int) =~= rest);
}

/// Decoding a quoted payload undoes the escaping exactly.
proof fn lemma_dec_str_esc(t: Seq<char>, rest: Seq<char>)
    ensures
        dec_str(esc(t) + seq!['"'] + rest) == Option::Some((t, rest)),
    decreases t.len(),
{
    let s = esc(t) + seq!['"'] + rest;
    if t.len() == 0 {
        assert(esc(t) =~= Seq::<char>::empty());
        assert(s =~= seq!['"'] + rest);
        assert(s[0] == '"');
        assert(s.drop_first() =~= rest);
    } else {
        let c = t[0];
        assert(esc(t) == esc1(c) + esc(t.drop_first()));
        lemma_dec_str_esc(t.drop_first(), rest);
        if c == '"' || c == '\\' {
            assert(s[0] == '\\');
            assert(s[1] == c);
            assert(s.len() >= 2);
            assert(s.skip(2) =~= esc(t.drop_first()) + seq!['"'] + rest);
            assert(seq![c] + t.drop_first() =~= t);
        } else {
            assert(s[0] == c);
            assert(s.drop_first() =~= esc(t.drop_first()) + seq!['"'] + rest);
            assert(seq![c] + t.drop_first() =~= t);
        }
    }
}

/// Decoding a quoted name that holds no quote and no backslash yields the
/// name itself.
proof fn lemma_dec_str_plain(t: Seq<char>, rest: Seq<char>)
    requires
        forall|i: int| 0 <= i < t.len() ==> t[i] != '"' && #[trigger] t[i] != '\\',
    ensures
        dec_str(t + seq!['"'] + rest) == Option::Some((t, rest)),
    decreases t.len(),
{
    let s = t + seq!['"'] + rest;
    if t.len() == 0 {
        assert(s =~= seq!['"'] + rest);
        assert(s.drop_first() =~= rest);
    } else {
        lemma_dec_str_plain(t.drop_first(), rest);
        assert(s[0] == t[0]);
        assert(s.drop_first() =~= t.drop_first() + seq!['"'] + rest);
        assert(seq![t[0]] + t.drop_first() =~= t);
    }
}

proof fn lemma_kind_name_plain(k: PartKind)
    ensures
        forall|i: int|
            0 <= i < kind_name(k).len() ==> kind_name(k)[i] != '"' && #[trigger] kind_name(k)[i]
                != '\\',
{
    reveal_strlit("text");
    reveal_strlit("image");
    reveal_strlit("audio");
    reveal_strlit("video");
    reveal_strlit("document");
    reveal_strlit("tool_result");
    reveal_strlit("tool_call");
    reveal_strlit("reasoning");
}

proof fn lemma_role_name_plain(r: Role)
    ensures
        forall|i: int|
            0 <= i < role_name(r).len() ==> role_name(r)[i] != '"' && #[trigger] role_name(r)[i]
                != '\\',
{
    reveal_strlit("user");
    reveal_strlit("assistant");
}

/// The stored kind names denote the kinds they were made from.
proof fn lemma_kind_name_round(k: PartKind)
    ensures
        kind_of_name(kind_name(k)) == Option::Some(k),
{
    reveal_strlit("text");
    reveal_strlit("image");
    reveal_strlit("audio");
    reveal_strlit("video");
    reveal_strlit("document");
    reveal_strlit("tool_result");
    reveal_strlit("tool_call");
    reveal_strlit("reasoning");
    assert("text"@.len() == 4);
    assert("image"@.len() == 5);
    assert("audio"@.len() == 5);
    assert("video"@.len() == 5);
    assert("document"@.len() == 8);
    assert("tool_result"@.len() == 11);
    assert("tool_call"@.len() == 9);
    assert("reasoning"@.len() == 9);
    assert("audio"@[0] == 'a' && "image"@[0] == 'i' && "video"@[0] == 'v');
    assert("tool_call"@[0] == 't' && "reasoning"@[0] == 'r');
}

proof fn lemma_role_name_round(r: Role)
    ensures
        role_of_name(role_name(r)) == Option::Some(r),
{
    reveal_strlit("user");
    reveal_strlit("assistant");
    assert("user"@.len() == 4);
    assert("assistant"@.len() == 9);
}

/// Decoding a stored part record yields the part back and leaves the rest.
proof fn lemma_dec_part(p: SpecPart, rest: Seq<char>)
    ensures
        dec_part(enc_part(p) + rest) == Option::Some((p, rest)),
{
    let lk = "{\"kind\":\""@;
    let ld = "\",\"data\":\""@;
    let pd = ",\"data\":\""@;
    let le = "\"}"@;
    let pe = "}"@;
    reveal_strlit("{\"kind\":\"");
    reveal_strlit("\",\"data\":\"");
    reveal_strlit(",\"data\":\"");
    reveal_strlit("\"}");
    reveal_strlit("}");
    assert(ld =~= seq!['"'] + pd);
    assert(le =~= seq!['"'] + pe);
    let kn = kind_name(p.kind);
    let s = enc_part(p) + rest;
    let x1 = kn + ld + esc(p.data) + le + rest;
    assert(s =~= lk + x1);
    lemma_dec_lit(lk, x1);
    assert(dec_lit(s, lk) == Option::Some(x1));
    let x2 = pd + esc(p.data) + le + rest;
    assert(x1 =~= kn + seq!['"'] + x2);
    lemma_kind_name_plain(p.kind);
    lemma_dec_str_plain(kn, x2);
    lemma_kind_name_round(p.kind);
    let x3 = esc(p.data) + le + rest;
    assert(x2 =~= pd + x3);
    lemma_dec_lit(pd, x3);
    let x4 = pe + rest;
    assert(x3 =~= esc(p.data) + seq!['"'] + x4);
    lemma_dec_str_esc(p.data, x4);
    lemma_dec_lit(pe, rest);
}

proof fn lemma_enc_part_len(p: SpecPart)
    ensures
        enc_part(p).len() >= 1,
{
    reveal_strlit("{\"kind\":\"");
}

/// Decoding the comma-prefixed tail of a stored part list yields the
/// remaining parts, provided what follows does not begin with a comma.
proof fn lemma_dec_parts_from(ps: Seq<SpecPart>, i: int, rest: Seq<char>)
    requires
        0 <= i <= ps.len(),
        rest.len() == 0 || rest[0] != ',',
    ensures
        dec_parts_tail(enc_parts_from(ps, i) + rest) == Option::Some((ps.skip(i), rest)),
    decreases ps.len() - i,
{
    reveal_strlit(",");
    if i >= ps.len() {
        assert(enc_parts_from(ps, i) + rest =~= rest);
        assert(ps.skip(i) =~= Seq::<SpecPart>::empty());
    } else {
        let s = enc_parts_from(ps, i) + rest;
        let x1 = enc_part(ps[i]) + enc_parts_from(ps, i + 1) + rest;
        assert(s =~= ","@ + x1);
        assert(s[0] == ',');
        assert(s.drop_first() =~= x1);
        let x2 = enc_parts_from(ps, i + 1) + rest;
        assert(x1 =~= enc_part(ps[i]) + x2);
        lemma_dec_part(ps[i], x2);
        lemma_enc_part_len(ps[i]);
        lemma_dec_parts_from(ps, i + 1, rest);
        assert(seq![ps[i]] + ps.skip(i + 1) =~= ps.skip(i));
    }
}

/// Decoding a stored non-empty part list yields the list back.
#[verifier::rlimit(60)]
proof fn lemma_dec_parts(ps: Seq<SpecPart>, rest: Seq<char>)
    requires
        ps.len() >= 1,
        rest.len() == 0 || rest[0] != ',',
    ensures
        dec_parts(enc_parts(ps) + rest) == Option::Some((ps, rest)),
{
    let s = enc_parts(ps) + rest;
    let x1 = enc_parts_from(ps, 1) + rest;
    assert(s =~= enc_part(ps[0]) + x1);
    lemma_dec_part(ps[0], x1);
    lemma_enc_part_len(ps[0]);
    lemma_dec_parts_from(ps, 1, rest);
    assert(seq![ps[0]] + ps.skip(1) =~= ps);
}

/// Decoding a stored message record yields the message back.
proof fn lemma_dec_msg(m: SpecMessage, rest: Seq<char>)
    requires
        wf_message(m),
    ensures
        dec_msg(enc_msg(m) + rest) == Option::Some((m, rest)),
{
    let lr = "{\"role\":\""@;
    let lp = "\",\"parts\":["@;
    let pp = ",\"parts\":["@;
    let lm = "]}"@;
    reveal_strlit("{\"role\":\"");
    reveal_strlit("\",\"parts\":[");
    reveal_strlit(",\"parts\":[");
    reveal_strlit("]}");
    assert(lp =~= seq!['"'] + pp);
    let rn = role_name(m.role);
    let s = enc_msg(m) + rest;
    let x1 = rn + lp + enc_parts(m.parts) + lm + rest;
    assert(s =~= lr + x1);
    lemma_dec_lit(lr, x1);
    let x2 = pp + enc_parts(m.parts) + lm + rest;
    assert(x1 =~= rn + seq!['"'] + x2);
    lemma_role_name_plain(m.role);
    lemma_dec_str_plain(rn, x2);
    lemma_role_name_round(m.role);
    let x3 = enc_parts(m.parts) + lm + rest;
    assert(x2 =~= pp + x3);
    lemma_dec_lit(pp, x3);
    let x4 = lm + rest;
    assert(x3 =~= enc_parts(m.parts) + x4);
    assert(x4[0] == ']');
    lemma_dec_parts(m.parts, x4);
    lemma_dec_lit(lm, rest);
}

proof fn lemma_enc_msg_len(m: SpecMessage)
    ensures
        enc_msg(m).len() >= 1,
{
    reveal_strlit("{\"role\":\"");
}

/// Decoding the line-separated tail of a stored history yields the
/// remaining messages, provided what follows does not begin with a comma.
#[verifier::rlimit(60)]
proof fn lemma_dec_msgs_from(h: Seq<SpecMessage>, i: int, rest: Seq<char>)
    requires
        0 <= i <= h.len(),
        forall|j: int| i <= j < h.len() ==> wf_message(#[trigger] h[j]),
        rest.len() == 0 || rest[0] != ',',
    ensures
        dec_msgs_tail(enc_msgs_from(h, i) + rest) == Option::Some((h.skip(i), rest)),
    decreases h.len() - i,
{
    reveal_strlit(",\n");
    if i >= h.len() {
        assert(enc_msgs_from(h, i) + rest =~= rest);
        assert(h.skip(i) =~= Seq::<SpecMessage>::empty());
    } else {
        let s = enc_msgs_from(h, i) + rest;
        let x1 = enc_msg(h[i]) + enc_msgs_from(h, i + 1) + rest;
        assert(s =~= ",\n"@ + x1);
        assert(s[0] == ',' && s[1] == '\n');
        assert(s.skip(2) =~= x1);
        let x2 = enc_msgs_from(h, i + 1) + rest;
        assert(x1 =~= enc_msg(h[i]) + x2);
        lemma_dec_msg(h[i], x2);
        lemma_enc_msg_len(h[i]);
        lemma_dec_msgs_from(h, i + 1, rest);
        assert(seq![h[i]] + h.skip(i + 1) =~= h.skip(i));
    }
}

/// Decoding an encoded history yields exactly the original messages in
/// their original order: the persistence round trip loses nothing.
pub proof fn lemma_history_round_trip(h: Seq<SpecMessage>)
    requires
        wf_history(h),
    ensures
        dec_history(enc_history(h)) == Option::Some(h),
{
    reveal_strlit("[]");
    reveal_strlit("[\n");
    reveal_strlit("\n]");
    if h.len() == 0 {
    } else {
        let lo = "[\n"@;
        let lc = "\n]"@;
        let s = enc_history(h);
        let x1 = enc_msg(h[0]) + enc_msgs_from(h, 1) + lc;
        assert(s =~= lo + x1);
        lemma_enc_msg_len(h[0]);
        assert(s.len() >= 5);
        assert(s != "[]"@);
        lemma_dec_lit(lo, x1);
        let x2 = enc_msgs_from(h, 1) + lc;
        assert(x1 =~= enc_msg(h[0]) + x2);
        lemma_dec_msg(h[0], x2);
        assert(lc[0] == '\n');
        lemma_dec_msgs_from(h, 1, lc);
        assert(seq![h[0]] + h.skip(1) =~= h);
    }
}

/// Escaping distributes over concatenation.
proof fn lemma_esc_append(a: Seq<char>, b: Seq<char>)
    ensures
        esc(a + b) == esc(a) + esc(b),
    decreases a.len(),
{
    if a.len() == 0 {
        assert(a + b =~= b);
        assert(esc(a) + esc(b) =~= esc(b));
    } else {
        lemma_esc_append(a.drop_first(), b);
        assert((a + b).drop_first() =~= a.drop_first() + b);
        assert((a + b)[0] == a[0]);
        assert(esc1(a[0]) + (esc(a.drop_first()) + esc(b)) =~= (esc1(a[0]) + esc(a.drop_first()))
            + esc(b));
    }
}

/// Appends the escaped form of a payload.
fn push_escaped(out: &mut Vec<char>, s: &str)
    ensures
        final(out)@ == old(out)@ + esc(s@),
{
    let n = s.unicode_len();
    let mut i: usize = 0;
    while i < n
        invariant
            n == s@.len(),
            i <= n,
            out@ == old(out)@ + esc(s@.take(i as int)),
        decreases n - i,
    {
        let c = s.get_char(i);
        proof {
            lemma_esc_append(s@.take(i as int), seq![c]);
            assert(s@.take(i as int + 1) =~= s@.take(i as int) + seq![c]);
            assert(seq![c].drop_first() =~= Seq::<char>::empty());
            assert(seq![c][0] == c);
            assert(esc(seq![c]) == esc1(c) + esc(Seq::<char>::empty()));
            assert(esc1(c) + Seq::<char>::empty() =~= esc1(c));
        }
        if c == '"' || c == '\\' {
            out.push('\\');
            out.push(c);
        } else {
            out.push(c);
        }
        i += 1;
        proof {
            assert(out@ =~= old(out)@ + esc(s@.take(i as int)));
        }
    }
    proof {
        assert(s@.take(n as int) =~= s@);
    }
}

/// The stored name of a part kind.
fn kind_name_str(k: PartKind) -> (r: &'static str)
    ensures
        r@ == kind_name(k),
{
    match k {
        PartKind::Text => "text",
        PartKind::Image => "image",
        PartKind::Audio => "audio",
        PartKind::Video => "video",
        PartKind::Document => "document",
        PartKind::ToolResult => "tool_result",
        PartKind::ToolCall => "tool_call",
        PartKind::Reasoning => "reasoning",
    }
}

/// Appends the stored form of one part.
fn push_part(out: &mut Vec<char>, p: &Part)
    ensures
        final(out)@ == old(out)@ + enc_part(p@),
{
    push_str_chars(out, "{\"kind\":\"");
    push_str_chars(out, kind_name_str(p.kind));
    push_str_chars(out, "\",\"data\":\"");
    push_escaped(out, p.data.as_str());
    push_str_chars(out, "\"}");
    proof {
        assert(out@ =~= old(out)@ + enc_part(p@));
    }
}

/// Appends the stored form of one message record.
fn push_msg(out: &mut Vec<char>, m: &Message)
    requires
        wf_message(m@),
    ensures
        final(out)@ == old(out)@ + enc_msg(m@),
{
    push_str_chars(out, "{\"role\":\"");
    match m.role {
        Role::User => push_str_chars(out, "user"),
        Role::Assistant => push_str_chars(out, "assistant"),
    }
    push_str_chars(out, "\",\"parts\":[");
    let ghost pre = out@;
    push_part(out, &m.parts[0]);
    let mut i: usize = 1;
    while i < m.parts.len()
        invariant
            1 <= i <= m.parts@.len(),
            wf_message(m@),
            out@ + enc_parts_from(m@.parts, i as int) == pre + enc_parts(m@.parts),
        decreases m.parts@.len() - i,
    {
        push_str_chars(out, ",");
        push_part(out, &m.parts[i]);
        proof {
            assert(part_views(m.parts@)[i as int] == m.parts@[i as int]@);
            assert(out@ + enc_parts_from(m@.parts, i as int + 1) =~= pre + enc_parts(m@.parts));
        }
        i += 1;
    }
    push_str_chars(out, "]}");
    proof {
        assert(part_views(m.parts@)[0] == m.parts@[0]@);
        assert(out@ =~= old(out)@ + enc_msg(m@));
    }
}

/// Renders a whole history in its stored form.
pub fn encode_history(h: &Vec<Message>) -> (r: String)
    requires
        wf_history(message_views(h@)),
    ensures
        r@ == enc_history(message_views(h@)),
{
    let ghost hs = message_views(h@);
    let mut out: Vec<char> = Vec::new();
    if h.len() == 0 {
        push_str_chars(&mut out, "[]");
        return chars_to_string(&out);
    }
    push_str_chars(&mut out, "[\n");
    proof {
        assert(message_views(h@)[0] == h@[0]@);
    }
    push_msg(&mut out, &h[0]);
    let mut i: usize = 1;
    while i < h.len()
        invariant
            1 <= i <= h@.len(),
            hs == message_views(h@),
            wf_history(hs),
            out@ + enc_msgs_from(hs, i as int) == "[\n"@ + enc_msg(hs[0]) + enc_msgs_from(hs, 1),
        decreases h@.len() - i,
    {
        push_str_chars(&mut out, ",\n");
        proof {
            assert(message_views(h@)[i as int] == h@[i as int]@);
        }
        push_msg(&mut out, &h[i]);
        proof {
            assert(out@ + enc_msgs_from(hs, i as int + 1) =~= "[\n"@ + enc_msg(hs[0])
                + enc_msgs_from(hs, 1));
        }
        i += 1;
    }
    push_str_chars(&mut out, "\n]");
    proof {
        assert(out@ =~= enc_history(hs));
    }
    chars_to_string(&out)
}

/// Consumes an exact literal at a position; on success the new position is
/// just past it.
fn p_lit(v: &Vec<char>, i: usize, lit: &str) -> (r: Option<usize>)
    requires
        i <= v@.len(),
    ensures
        match r {
            Option::Some(j) => {
                &&& i <= j <= v@.len()
                &&& j - i == lit@.len()
                &&& dec_lit(v@.skip(i as int), lit@) == Option::Some(v@.skip(j as int))
            },
            Option::None => dec_lit(v@.skip(i as int), lit@) is None,
        },
{
    let n = lit.unicode_len();
    let vlen = v.len();
    if n > vlen - i {
        return Option::None;
    }
    let mut k: usize = 0;
    while k < n
        invariant
            n == lit@.len(),
            vlen == v@.len(),
            i + n <= vlen,
            k <= n,
            forall|t: int| 0 <= t < k ==> v@[i + t] == lit@[t],
        decreases n - k,
    {
        if v[i + k] != lit.get_char(k) {
            proof {
                let s = v@.skip(i as int);
                if s.take(n as int) == lit@ {
                    assert(s.take(n as int)[k as int] == lit@[k as int]);
                }
            }
            return Option::None;
        }
        k += 1;
    }
    proof {
        let s = v@.skip(i as int);
        assert(s.take(n as int) =~= lit@);
        assert(s.skip(n as int) =~= v@.skip((i + n) as int));
    }
    Option::Some(i + n)
}

/// Consumes a quoted payload at a position, undoing the escaping; on
/// success the new position is just past the closing quote.
fn p_str(v: &Vec<char>, i: usize) -> (r: Option<(Vec<char>, usize)>)
    requires
        i <= v@.len(),
    ensures
        match r {
            Option::Some((t, j)) => {
                &&& i < j <= v@.len()
                &&& dec_str(v@.skip(i as int)) == Option::Some((t@, v@.skip(j as int)))
            },
            Option::None => dec_str(v@.skip(i as int)) is None,
        },
{
    let mut out: Vec<char> = Vec::new();
    let mut p: usize = i;
    loop
        invariant
            i <= p <= v@.len(),
            dec_str(v@.skip(p as int)) is None ==> dec_str(v@.skip(i as int)) is None,
            dec_str(v@.skip(p as int)) is Some ==> dec_str(v@.skip(i as int)) == Option::Some(
                (out@ + (dec_str(v@.skip(p as int))->0).0, (dec_str(v@.skip(p as int))->0).1),
            ),
        decreases v@.len() - p,
    {
        if p >= v.len() {
            return Option::None;
        }
        let c = v[p];
        if c == '"' {
            proof {
                let s = v@.skip(p as int);
                assert(s.drop_first() =~= v@.skip(p as int + 1));
                assert(out@ + Seq::<char>::empty() =~= out@);
            }
            return Option::Some((out, p + 1));
        } else if c == '\\' {
            if p + 1 >= v.len() {
                return Option::None;
            }
            let d = v[p + 1];
            if d == '"' || d == '\\' {
                proof {
                    let s = v@.skip(p as int);
                    assert(s[1] == d);
                    assert(s.skip(2) =~= v@.skip(p as int + 2));
                    if dec_str(v@.skip(p as int + 2)) is Some {
                        let t = (dec_str(v@.skip(p as int + 2))->0).0;
                        assert(out@ + (seq![d] + t) =~= (out@ + seq![d]) + t);
                    }
                }
                out.push(d);
                p += 2;
            } else {
                return Option::None;
            }
        } else {
            proof {
                let s = v@.skip(p as int);
                assert(s.drop_first() =~= v@.skip(p as int + 1));
                if dec_str(v@.skip(p as int + 1)) is Some {
                    let t = (dec_str(v@.skip(p as int + 1))->0).0;
                    assert(out@ + (seq![c] + t) =~= (out@ + seq![c]) + t);
                }
            }
            out.push(c);
            p += 1;
        }
    }
}

/// The part kind a name vector denotes, if any.
fn kind_from_chars(n: &Vec<char>) -> (r: Option<PartKind>)
    ensures
        r == kind_of_name(n@),
{
    if chars_eq_str(n, "text") {
        Option::Some(PartKind::Text)
    } else if chars_eq_str(n, "image") {
        Option::Some(PartKind::Image)
    } else if chars_eq_str(n, "audio") {
        Option::Some(PartKind::Audio)
    } else if chars_eq_str(n, "video") {
        Option::Some(PartKind::Video)
    } else if chars_eq_str(n, "document") {
        Option::Some(PartKind::Document)
    } else if chars_eq_str(n, "tool_result") {
        Option::Some(PartKind::ToolResult)
    } else if chars_eq_str(n, "tool_call") {
        Option::Some(PartKind::ToolCall)
    } else if chars_eq_str(n, "reasoning") {
        Option::Some(PartKind::Reasoning)
    } else {
        Option::None
    }
}

/// The role a name vector denotes, if any.
fn role_from_chars(n: &Vec<char>) -> (r: Option<Role>)
    ensures
        r == role_of_name(n@),
{
    if chars_eq_str(n, "user") {
        Option::Some(Role::User)
    } else if chars_eq_str(n, "assistant") {
        Option::Some(Role::Assistant)
    } else {
        Option::None
    }
}

/// Consumes one stored part record at a position.
fn p_part(v: &Vec<char>, i: usize) -> (r: Option<(Part, usize)>)
    requires
        i <= v@.len(),
    ensures
        match r {
            Option::Some((p, j)) => {
                &&& i < j <= v@.len()
                &&& dec_part(v@.skip(i as int)) == Option::Some((p@, v@.skip(j as int)))
            },
            Option::None => dec_part(v@.skip(i as int)) is None,
        },
{
    let s1 = match p_lit(v, i, "{\"kind\":\"") {
        Option::Some(j) => j,
        Option::None => {
            return Option::None;
        },
    };
    let (kn, s2) = match p_str(v, s1) {
        Option::Some(x) => x,
        Option::None => {
            return Option::None;
        },
    };
    let kind = match kind_from_chars(&kn) {
        Option::Some(k) => k,
        Option::None => {
            return Option::None;
        },
    };
    let s3 = match p_lit(v, s2, ",\"data\":\"") {
        Option::Some(j) => j,
        Option::None => {
            return Option::None;
        },
    };
    let (data, s4) = match p_str(v, s3) {
        Option::Some(x) => x,
        Option::None => {
            return Option::None;
        },
    };
    let s5 = match p_lit(v, s4, "}") {
        Option::Some(j) => j,
        Option::None => {
            return Option::None;
        },
    };
    proof {
        reveal_strlit("{\"kind\":\"");
    }
    Option::Some((Part { kind, data: chars_to_string(&data) }, s5))
}

/// Consumes one or more comma-separated part records at a position.
fn p_parts(v: &Vec<char>, i: usize) -> (r: Option<(Vec<Part>, usize)>)
    requires
        i <= v@.len(),
    ensures
        match r {
            Option::Some((ps, j)) => {
                &&& i < j <= v@.len()
                &&& ps@.len() >= 1
                &&& dec_parts(v@.skip(i as int)) == Option::Some(
                    (part_views(ps@), v@.skip(j as int)),
                )
            },
            Option::None => dec_parts(v@.skip(i as int)) is None,
        },
{
    let first = match p_part(v, i) {
        Option::Some(x) => x,
        Option::None => {
            return Option::None;
        },
    };
    let mut parts: Vec<Part> = Vec::new();
    parts.push(first.0);
    let mut pos: usize = first.1;
    proof {
        assert(v@.skip(pos as int).len() < v@.skip(i as int).len());
        assert(part_views(parts@) =~= seq![parts@[0]@]);
    }
    loop
        invariant
            i < pos <= v@.len(),
            parts@.len() >= 1,
            dec_parts_tail(v@.skip(pos as int)) is None ==> dec_parts(v@.skip(i as int)) is None,
            dec_parts_tail(v@.skip(pos as int)) is Some ==> dec_parts(v@.skip(i as int))
                == Option::Some(
                (
                    part_views(parts@) + (dec_parts_tail(v@.skip(pos as int))->0).0,
                    (dec_parts_tail(v@.skip(pos as int))->0).1,
                ),
            ),
        decreases v@.len() - pos,
    {
        if pos >= v.len() || v[pos] != ',' {
            proof {
                let s = v@.skip(pos as int);
                assert(dec_parts_tail(s) == Option::Some((Seq::<SpecPart>::empty(), s)));
                assert(part_views(parts@) + Seq::<SpecPart>::empty() =~= part_views(parts@));
            }
            return Option::Some((parts, pos));
        }
        proof {
            assert(v@.skip(pos as int)[0] == v@[pos as int]);
            assert(v@.skip(pos as int).drop_first() =~= v@.skip(pos as int + 1));
        }
        match p_part(v, pos + 1) {
            Option::None => {
                return Option::None;
            },
            Option::Some((p, j)) => {
                proof {
                    assert(v@.skip(j as int).len() < v@.skip(pos as int + 1).len());
                    if dec_parts_tail(v@.skip(j as int)) is Some {
                        let ts = (dec_parts_tail(v@.skip(j as int))->0).0;
                        assert(part_views(parts@.push(p)) =~= part_views(parts@) + seq![p@]);
                        assert(part_views(parts@) + (seq![p@] + ts) =~= (part_views(parts@)
                            + seq![p@]) + ts);
                    }
                }
                parts.push(p);
                pos = j;
            },
        }
    }
}

/// Consumes one stored message record at a position.
fn p_msg(v: &Vec<char>, i: usize) -> (r: Option<(Message, usize)>)
    requires
        i <= v@.len(),
    ensures
        match r {
            Option::Some((m, j)) => {
                &&& i < j <= v@.len()
                &&& wf_message(m@)
                &&& dec_msg(v@.skip(i as int)) == Option::Some((m@, v@.skip(j as int)))
            },
            Option::None => dec_msg(v@.skip(i as int)) is None,
        },
{
    let s1 = match p_lit(v, i, "{\"role\":\"") {
        Option::Some(j) => j,
        Option::None => {
            return Option::None;
        },
    };
    let (rn, s2) = match p_str(v, s1) {
        Option::Some(x) => x,
        Option::None => {
            return Option::None;
        },
    };
    let role = match role_from_chars(&rn) {
        Option::Some(x) => x,
        Option::None => {
            return Option::None;
        },
    };
    let s3 = match p_lit(v, s2, ",\"parts\":[") {
        Option::Some(j) => j,
        Option::None => {
            return Option::None;
        },
    };
    let (parts, s4) = match p_parts(v, s3) {
        Option::Some(x) => x,
        Option::None => {
            return Option::None;
        },
    };
    let s5 = match p_lit(v, s4, "]}") {
        Option::Some(j) => j,
        Option::None => {
            return Option::None;
        },
    };
    proof {
        reveal_strlit("{\"role\":\"");
    }
    Option::Some((Message { role, parts }, s5))
}

/// Consumes one or more line-separated message records at a position.
fn p_msgs(v: &Vec<char>, i: usize) -> (r: Option<(Vec<Message>, usize)>)
    requires
        i <= v@.len(),
    ensures
        match r {
            Option::Some((ms, j)) => {
                &&& i < j <= v@.len()
                &&& wf_history(message_views(ms@))
                &&& dec_msgs(v@.skip(i as int)) == Option::Some(
                    (message_views(ms@), v@.skip(j as int)),
                )
            },
            Option::None => dec_msgs(v@.skip(i as int)) is None,
        },
{
    let first = match p_msg(v, i) {
        Option::Some(x) => x,
        Option::None => {
            return Option::None;
        },
    };
    let mut msgs: Vec<Message> = Vec::new();
    msgs.push(first.0);
    let mut pos: usize = first.1;
    proof {
        assert(v@.skip(pos as int).len() < v@.skip(i as int).len());
        assert(message_views(msgs@) =~= seq![msgs@[0]@]);
    }
    loop
        invariant
            i < pos <= v@.len(),
            msgs@.len() >= 1,
            wf_history(message_views(msgs@)),
            dec_msgs_tail(v@.skip(pos as int)) is None ==> dec_msgs(v@.skip(i as int)) is None,
            dec_msgs_tail(v@.skip(pos as int)) is Some ==> dec_msgs(v@.skip(i as int))
                == Option::Some(
                (
                    message_views(msgs@) + (dec_msgs_tail(v@.skip(pos as int))->0).0,
                    (dec_msgs_tail(v@.skip(pos as int))->0).1,
                ),
            ),
        decreases v@.len() - pos,
    {
        let more = if v.len() - pos >= 2 {
            v[pos] == ',' && v[pos + 1] == '\n'
        } else {
            false
        };
        if !more {
            proof {
                let s = v@.skip(pos as int);
                assert(s.len() >= 2 ==> s[0] == v@[pos as int] && s[1] == v@[pos as int + 1]);
                assert(dec_msgs_tail(s) == Option::Some((Seq::<SpecMessage>::empty(), s)));
                assert(message_views(msgs@) + Seq::<SpecMessage>::empty() =~= message_views(
                    msgs@,
                ));
            }
            return Option::Some((msgs, pos));
        }
        proof {
            assert(v@.skip(pos as int)[0] == v@[pos as int]);
            assert(v@.skip(pos as int)[1] == v@[pos as int + 1]);
            assert(v@.skip(pos as int).skip(2) =~= v@.skip(pos as int + 2));
        }
        match p_msg(v, pos + 2) {
            Option::None => {
                return Option::None;
            },
            Option::Some((m, j)) => {
                proof {
                    assert(v@.skip(j as int).len() < v@.skip(pos as int + 2).len());
                    assert(message_views(msgs@.push(m)) =~= message_views(msgs@) + seq![m@]);
                    if dec_msgs_tail(v@.skip(j as int)) is Some {
                        let ts = (dec_msgs_tail(v@.skip(j as int))->0).0;
                        assert(message_views(msgs@) + (seq![m@] + ts) =~= (message_views(msgs@)
                            + seq![m@]) + ts);
                    }
                }
                msgs.push(m);
                pos = j;
            },
        }
    }
}

/// Parses a stored history. Strict: accepts exactly the form that
/// `encode_history` writes, and yields exactly the messages stored in it;
/// anything else is rejected.
pub fn parse_history(s: &str) -> (r: Option<Vec<Message>>)
    ensures
        match r {
            Option::Some(h) => {
                &&& dec_history(s@) == Option::Some(message_views(h@))
                &&& wf_history(message_views(h@))
            },
            Option::None => dec_history(s@) is None,
        },
{
    let v = chars_of(s);
    if chars_eq_str(&v, "[]") {
        let empty: Vec<Message> = Vec::new();
        proof {
            assert(message_views(empty@) =~= Seq::<SpecMessage>::empty());
        }
        return Option::Some(empty);
    }
    proof {
        assert(v@.skip(0) =~= s@);
    }
    let s1 = match p_lit(&v, 0, "[\n") {
        Option::Some(j) => j,
        Option::None => {
            return Option::None;
        },
    };
    let (msgs, j) = match p_msgs(&v, s1) {
        Option::Some(x) => x,
        Option::None => {
            return Option::None;
        },
    };
    match p_lit(&v, j, "\n]") {
        Option::Some(j2) => {
            if j2 == v.len() {
                proof {
                    let rest = v@.skip(j as int);
                    assert(rest.take("\n]"@.len() as int) == "\n]"@);
                    assert(rest.len() == "\n]"@.len());
                    assert(rest =~= "\n]"@);
                }
                Option::Some(msgs)
            } else {
                proof {
                    assert(v@.skip(j as int).len() > "\n]"@.len());
                }
                Option::None
            }
        },
        Option::None => {
            proof {
                let rest = v@.skip(j as int);
                if rest == "\n]"@ {
                    assert(rest.take("\n]"@.len() as int) =~= "\n]"@);
                }
            }
            Option::None
        },
    }
}

} // verus!
