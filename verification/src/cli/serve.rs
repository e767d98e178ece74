//! What the HTTP server makes of a request, and what it answers.
use crate::chat::{message_views, ChatMessage, ChatRole, MessageView};
use crate::session::StopReason;
use crate::text::{
    chars_of, law_lower_idempotent, lower, quote, quoted, same_chars, string_of, to_lower,
};
use vstd::prelude::*;

verus! {

/// A message as it came.
#[derive(Debug, Clone)]
pub struct ChatMessageIn {
    pub role: String,
    pub content: String,
}

/// The role that a name means, in any case of its letters.
pub open spec fn role_of(name: Seq<char>) -> Option<ChatRole> {
    if lower(name) == "system"@ {
        Some(ChatRole::System)
    } else if lower(name) == "user"@ {
        Some(ChatRole::User)
    } else if lower(name) == "assistant"@ {
        Some(ChatRole::Assistant)
    } else {
        None
    }
}

fn find_role(name: &str) -> (r: Option<ChatRole>)
    ensures
        r == role_of(name@),
{
    let v: Vec<char> = to_lower(&chars_of(name));
    if same_chars(&v, &chars_of("system")) {
        Some(ChatRole::System)
    } else if same_chars(&v, &chars_of("user")) {
        Some(ChatRole::User)
    } else if same_chars(&v, &chars_of("assistant")) {
        Some(ChatRole::Assistant)
    } else {
        None
    }
}

/// What is answered to a message whose role is not known.
pub open spec fn role_sentence(name: Seq<char>) -> Seq<char> {
    "unsupported role "@ + quoted(lower(name)) + " (use system|user|assistant)"@
}

/// Whether the roles of the first `n` messages are known.
pub open spec fn roles_known(raw: Seq<ChatMessageIn>, n: int) -> bool {
    forall|i: int| 0 <= i < n ==> role_of((#[trigger] raw[i]).role@) is Some
}

/// Messages with their roles.
pub open spec fn with_roles(raw: Seq<ChatMessageIn>) -> Seq<MessageView> {
    raw.map_values(|m: ChatMessageIn| (role_of(m.role@)->0, m.content@))
}

/// Messages with their roles, or the sentence that tells the first role that is
/// not known.
pub fn map_messages(raw: &[ChatMessageIn]) -> (r: Result<Vec<ChatMessage>, String>)
    ensures
        match r {
            Ok(v) => {
                &&& roles_known(raw@, raw@.len() as int)
                &&& message_views(v@) == with_roles(raw@)
            },
            Err(e) => exists|i: int|
                {
                    &&& 0 <= i < raw@.len()
                    &&& roles_known(raw@, i)
                    &&& role_of((#[trigger] raw@[i]).role@) is None
                    &&& e@ == role_sentence(raw@[i].role@)
                },
        },
{
    let mut out: Vec<ChatMessage> = Vec::new();
    let mut i: usize = 0;
    proof {
        assert(raw@.take(0) =~= Seq::<ChatMessageIn>::empty());
        assert(message_views(out@) =~= with_roles(raw@.take(0)));
    }
    while i < raw.len()
        invariant
            i <= raw@.len(),
            roles_known(raw@, i as int),
            message_views(out@) == with_roles(raw@.take(i as int)),
        decreases raw@.len() - i,
    {
        match find_role(raw[i].role.as_str()) {
            Some(role) => {
                let ghost before: Seq<ChatMessage> = out@;
                let m: ChatMessage = ChatMessage { role, content: raw[i].content.clone() };
                out.push(m);
                proof {
                    assert(message_views(out@) =~= message_views(before).push(m@));
                    assert(with_roles(raw@.take(i as int + 1)) =~= with_roles(
                        raw@.take(i as int),
                    ).push((role, raw@[i as int].content@)));
                }
            },
            None => {
                let name: String = string_of(&to_lower(&chars_of(raw[i].role.as_str())));
                let mut text: String = String::new();
                text.append("unsupported role ");
                text.append(quote(name.as_str()).as_str());
                text.append(" (use system|user|assistant)");
                proof {
                    assert(text@ == role_sentence(raw@[i as int].role@));
                }
                return Err(text);
            },
        }
        i = i + 1;
    }
    proof {
        assert(raw@.take(raw@.len() as int) =~= raw@);
    }
    Ok(out)
}

/// The start of a text, with a mark where something is left out.
pub open spec fn shortened(s: Seq<char>, max_chars: nat) -> Seq<char> {
    if s.len() > max_chars {
        s.take(max_chars as int).push('…')
    } else {
        s
    }
}

/// The start of a text, with a mark where something is left out.
pub fn truncate(s: &str, max_chars: usize) -> (r: String)
    ensures
        r@ == shortened(s@, max_chars as nat),
{
    let v: Vec<char> = chars_of(s);
    if v.len() > max_chars {
        let head: &[char] = vstd::slice::slice_subrange(v.as_slice(), 0, max_chars);
        let mut out: String = string_of(head);
        out.push('…');
        proof {
            assert(out@ =~= shortened(s@, max_chars as nat));
        }
        out
    } else {
        s.to_owned()
    }
}

/// Whether a message is from the user.
pub open spec fn from_user(m: ChatMessageIn) -> bool {
    lower(m.role@) == "user"@
}

/// The start of what the user said last.
pub fn last_user_preview(messages: &[ChatMessageIn]) -> (r: String)
    ensures
        if exists|i: int| 0 <= i < messages@.len() && from_user(#[trigger] messages@[i]) {
            exists|i: int|
                {
                    &&& 0 <= i < messages@.len()
                    &&& from_user(#[trigger] messages@[i])
                    &&& forall|k: int| i < k < messages@.len() ==> !from_user(#[trigger] messages@[k])
                    &&& r@ == shortened(messages@[i].content@, 60)
                }
        } else {
            r@ == "(no user message)"@
        },
{
    let mut i: usize = messages.len();
    while i > 0
        invariant
            i <= messages@.len(),
            forall|k: int| i <= k < messages@.len() ==> !from_user(#[trigger] messages@[k]),
        decreases i,
    {
        i = i - 1;
        let m: &ChatMessageIn = &messages[i];
        if same_chars(&to_lower(&chars_of(m.role.as_str())), &chars_of("user")) {
            proof {
                assert(from_user(messages@[i as int]));
            }
            return truncate(m.content.as_str(), 60);
        }
    }
    "(no user message)".to_owned()
}

/// A chat request.
#[derive(Debug)]
pub struct ChatRequest {
    pub messages: Vec<ChatMessageIn>,
    pub max_tokens: Option<usize>,
    pub max_completion_tokens: Option<usize>,
    pub stream: Option<bool>,
}

/// What a request asks the engine for.
#[derive(Debug)]
pub struct ChatPlan {
    pub messages: Vec<ChatMessage>,
    pub max_tokens: Option<usize>,
    pub stream: bool,
}

/// What a request asks the engine for, or the sentence with which it is refused:
/// there must be a message, and every role must be known.
pub fn plan_chat(req: &ChatRequest) -> (r: Result<ChatPlan, String>)
    ensures
        match r {
            Ok(p) => {
                &&& req.messages@.len() > 0
                &&& roles_known(req.messages@, req.messages@.len() as int)
                &&& message_views(p.messages@) == with_roles(req.messages@)
                &&& p.max_tokens == (if req.max_tokens is Some {
                    req.max_tokens
                } else {
                    req.max_completion_tokens
                })
                &&& p.stream == (req.stream == Some(true))
            },
            Err(e) => {
                ||| req.messages@.len() == 0 && e@ == "messages must not be empty"@
                ||| exists|i: int|
                    {
                        &&& 0 <= i < req.messages@.len()
                        &&& roles_known(req.messages@, i)
                        &&& role_of((#[trigger] req.messages@[i]).role@) is None
                        &&& e@ == role_sentence(req.messages@[i].role@)
                    }
            },
        },
{
    if req.messages.len() == 0 {
        return Err("messages must not be empty".to_owned());
    }
    let messages: Vec<ChatMessage> = match map_messages(req.messages.as_slice()) {
        Ok(m) => m,
        Err(e) => {
            return Err(e);
        },
    };
    let max_tokens: Option<usize> = match req.max_tokens {
        Some(n) => Some(n),
        None => req.max_completion_tokens,
    };
    let stream: bool = match req.stream {
        Some(b) => b,
        None => false,
    };
    Ok(ChatPlan { messages, max_tokens, stream })
}

/// Why a reply ended, as the answer says it.
pub open spec fn finish_name(stop: StopReason) -> Seq<char> {
    match stop {
        StopReason::Eos => "stop"@,
        StopReason::Empty => "stop"@,
        StopReason::MaxNew => "length"@,
    }
}

/// Why a reply ended, as the answer says it.
pub fn finish_reason(stop: StopReason) -> (r: &'static str)
    ensures
        r@ == finish_name(stop),
{
    match stop {
        StopReason::Eos => "stop",
        StopReason::Empty => "stop",
        StopReason::MaxNew => "length",
    }
}

/// The counts of an answer.
#[derive(Debug, Clone, Copy, PartialEq, Eq, Structural)]
pub struct Usage {
    pub prompt_tokens: u32,
    pub completion_tokens: u32,
    pub total_tokens: u32,
}

impl Usage {
    /// The counts of a reply, as far as 32 bits hold them.
    pub fn of(prompt: usize, reply: usize) -> (r: Usage)
        requires
            prompt + reply <= usize::MAX,
        ensures
            r.prompt_tokens == #[verifier::truncate] (prompt as u32),
            r.completion_tokens == #[verifier::truncate] (reply as u32),
            r.total_tokens == #[verifier::truncate] ((prompt + reply) as u32),
    {
        Usage {
            prompt_tokens: #[verifier::truncate] (prompt as u32),
            completion_tokens: #[verifier::truncate] (reply as u32),
            total_tokens: #[verifier::truncate] ((prompt + reply) as u32),
        }
    }
}

/// The total is the sum of the other two, where 32 bits hold it.
pub proof fn law_total_is_the_sum(prompt: usize, reply: usize)
    requires
        prompt + reply <= u32::MAX,
    ensures
        (prompt + reply) as u32 == (prompt as u32) + (reply as u32),
{
}

/// One part of a streamed answer.
#[derive(Debug)]
pub struct StreamPart {
    pub role: Option<&'static str>,
    pub content: Option<String>,
    pub finish_reason: Option<&'static str>,
}

/// The same as a mathematical value.
#[verifier::ext_equal]
pub struct StreamPartView {
    pub role: Option<Seq<char>>,
    pub content: Option<Seq<char>>,
    pub finish_reason: Option<Seq<char>>,
}

impl View for StreamPart {
    type V = StreamPartView;

    open spec fn view(&self) -> StreamPartView {
        StreamPartView {
            role: match self.role {
                Some(s) => Some(s@),
                None => None,
            },
            content: match self.content {
                Some(s) => Some(s@),
                None => None,
            },
            finish_reason: match self.finish_reason {
                Some(s) => Some(s@),
                None => None,
            },
        }
    }
}

/// The parts of a streamed answer: who speaks, the pieces of the reply, and why
/// it ended.
pub open spec fn stream_parts(pieces: Seq<Seq<char>>, stop: StopReason) -> Seq<StreamPartView> {
    seq![first_view()] + pieces.map_values(|p: Seq<char>| piece_view(p)) + seq![last_view(stop)]
}

/// The part that says who speaks.
pub open spec fn first_view() -> StreamPartView {
    StreamPartView { role: Some("assistant"@), content: Some(Seq::empty()), finish_reason: None }
}

/// The part that holds a piece of the reply.
pub open spec fn piece_view(piece: Seq<char>) -> StreamPartView {
    StreamPartView { role: None, content: Some(piece), finish_reason: None }
}

/// The part that says why the reply ended.
pub open spec fn last_view(stop: StopReason) -> StreamPartView {
    StreamPartView { role: None, content: None, finish_reason: Some(finish_name(stop)) }
}

impl StreamPart {
    /// The part that says who speaks.
    pub fn first() -> (r: StreamPart)
        ensures
            r@ == first_view(),
    {
        let content: String = String::new();
        proof {
            assert(content@ =~= Seq::<char>::empty());
        }
        StreamPart { role: Some("assistant"), content: Some(content), finish_reason: None }
    }

    /// The part that holds a piece of the reply.
    pub fn piece(piece: &str) -> (r: StreamPart)
        ensures
            r@ == piece_view(piece@),
    {
        StreamPart { role: None, content: Some(piece.to_owned()), finish_reason: None }
    }

    /// The part that says why the reply ended.
    pub fn last(stop: StopReason) -> (r: StreamPart)
        ensures
            r@ == last_view(stop),
    {
        StreamPart { role: None, content: None, finish_reason: Some(finish_reason(stop)) }
    }
}

/// The contents of the parts, one after the other.
pub open spec fn streamed_text(parts: Seq<StreamPartView>) -> Seq<char>
    decreases parts.len(),
{
    if parts.len() == 0 {
        Seq::empty()
    } else {
        streamed_text(parts.drop_last()) + (match parts.last().content {
            Some(s) => s,
            None => Seq::empty(),
        })
    }
}

/// Pieces, one after the other.
pub open spec fn all_pieces(pieces: Seq<Seq<char>>) -> Seq<char>
    decreases pieces.len(),
{
    if pieces.len() == 0 {
        Seq::empty()
    } else {
        all_pieces(pieces.drop_last()) + pieces.last()
    }
}

proof fn lemma_stream_text(pieces: Seq<Seq<char>>)
    ensures
        streamed_text(seq![first_view()] + pieces.map_values(|p: Seq<char>| piece_view(p)))
            == all_pieces(pieces),
    decreases pieces.len(),
{
    let parts = seq![first_view()] + pieces.map_values(|p: Seq<char>| piece_view(p));
    if pieces.len() == 0 {
        assert(parts =~= seq![first_view()]);
        assert(parts.drop_last() =~= Seq::<StreamPartView>::empty());
        assert(streamed_text(parts.drop_last()) =~= Seq::<char>::empty());
        assert(streamed_text(parts) =~= Seq::<char>::empty());
    } else {
        lemma_stream_text(pieces.drop_last());
        assert(parts.drop_last() =~= seq![first_view()] + pieces.drop_last().map_values(
            |p: Seq<char>| piece_view(p),
        ));
        assert(parts.last() == piece_view(pieces.last()));
    }
}

/// A streamed answer gives the whole reply: its contents, one after the other,
/// are the pieces.
pub proof fn law_stream_gives_the_reply(pieces: Seq<Seq<char>>, stop: StopReason)
    ensures
        streamed_text(stream_parts(pieces, stop)) == all_pieces(pieces),
{
    let body = seq![first_view()] + pieces.map_values(|p: Seq<char>| piece_view(p));
    let parts = stream_parts(pieces, stop);
    lemma_stream_text(pieces);
    assert(parts.drop_last() =~= body);
    assert(parts.last() == last_view(stop));
    assert(streamed_text(parts) =~= streamed_text(body));
}

/// The name of an answer.
pub fn completion_id(unique: &str) -> (r: String)
    ensures
        r@ == "chatcmpl-"@ + unique@,
{
    let mut out: String = String::new();
    out.append("chatcmpl-");
    out.append(unique);
    proof {
        assert(out@ == "chatcmpl-"@ + unique@);
    }
    out
}

/// The part of a streamed answer that tells an error.
pub fn stream_error(message: &str) -> (r: String)
    ensures
        r@ == "{\"error\":{\"message\":\""@ + message@ + "\",\"type\":\"server_error\"}}"@,
{
    let mut out: String = String::new();
    out.append("{\"error\":{\"message\":\"");
    out.append(message);
    out.append("\",\"type\":\"server_error\"}}");
    proof {
        assert(out@ == "{\"error\":{\"message\":\""@ + message@
            + "\",\"type\":\"server_error\"}}"@);
    }
    out
}

/// What ends a streamed answer.
pub const STREAM_END: &'static str = "[DONE]";

/// A role means the same in any case of its letters.
pub proof fn law_role_case_does_not_matter(name: Seq<char>)
    ensures
        role_of(lower(name)) == role_of(name),
{
    law_lower_idempotent(name);
}

/// A shortened text has at most one character more than it may.
pub proof fn law_short_enough(s: Seq<char>, max_chars: nat)
    ensures
        shortened(s, max_chars).len() <= max_chars + 1,
        s.len() <= max_chars ==> shortened(s, max_chars) == s,
{
}

/// A role is known by its name, and by no other name.
pub proof fn law_roles_by_name(role: ChatRole, name: Seq<char>)
    ensures
        role_of(role.spec_name()) == Some(role),
        role_of(name) == Some(role) ==> lower(name) == role.spec_name(),
        lower(name) == role.spec_name() ==> role_of(name) == Some(role),
{
    reveal_strlit("system");
    reveal_strlit("user");
    reveal_strlit("assistant");
    assert("system"@.len() == 6 && "user"@.len() == 4 && "assistant"@.len() == 9);
    let n = role.spec_name();
    assert(lower(n) =~= n) by {
        assert forall|i: int| 0 <= i < n.len() implies #[trigger] lower(n)[i] == n[i] by {}
    }
}

/// A reply that was cut is told apart from one that ended.
pub proof fn law_finish_names(stop: StopReason)
    ensures
        finish_name(stop) == "length"@ <==> stop == StopReason::MaxNew,
        finish_name(stop) == "stop"@ <==> stop != StopReason::MaxNew,
{
    reveal_strlit("length");
    reveal_strlit("stop");
    assert("length"@.len() == 6 && "stop"@.len() == 4);
}

/// A text that is too long is cut to its beginning, with one mark behind it.
pub proof fn law_shortened(s: Seq<char>, max_chars: nat)
    requires
        s.len() > max_chars,
    ensures
        shortened(s, max_chars).drop_last() == s.take(max_chars as int),
        shortened(s, max_chars).last() == '…',
{
    assert(shortened(s, max_chars).drop_last() =~= s.take(max_chars as int));
}

/// The first part of a stream names the assistant and the last one says why it ended;
/// every part between them is a piece of the reply and nothing else.
pub proof fn law_stream_order(pieces: Seq<Seq<char>>, stop: StopReason, i: int)
    ensures
        ({
            let parts = stream_parts(pieces, stop);
            &&& parts.len() == pieces.len() + 2
            &&& parts[0].role == Some("assistant"@) && parts[0].finish_reason is None
            &&& 0 <= i < pieces.len() ==> parts[i + 1].content == Some(pieces[i]) && parts[i
                + 1].role is None && parts[i + 1].finish_reason is None
            &&& parts.last().finish_reason == Some(finish_name(stop)) && parts.last().content is None
        }),
{
}

} // verus!
