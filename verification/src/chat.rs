//! Chat messages and the ChatML prompt made of them.
use vstd::prelude::*;

verus! {

/// Who speaks.
#[derive(Debug, Clone, Copy, PartialEq, Eq, Structural)]
pub enum ChatRole {
    System,
    User,
    Assistant,
}

impl ChatRole {
    /// The name of the role.
    pub open spec fn spec_name(self) -> Seq<char> {
        match self {
            ChatRole::System => "system"@,
            ChatRole::User => "user"@,
            ChatRole::Assistant => "assistant"@,
        }
    }

    /// The name of the role.
    pub fn as_str(self) -> (r: &'static str)
        ensures
            r@ == self.spec_name(),
    {
        match self {
            ChatRole::System => "system",
            ChatRole::User => "user",
            ChatRole::Assistant => "assistant",
        }
    }
}

/// What one speaker says.
#[derive(Debug, Clone)]
pub struct ChatMessage {
    pub role: ChatRole,
    pub content: String,
}

/// A message as a mathematical value: the role and the text.
pub type MessageView = (ChatRole, Seq<char>);

impl View for ChatMessage {
    type V = MessageView;

    open spec fn view(&self) -> MessageView {
        (self.role, self.content@)
    }
}

impl ChatMessage {
    /// What the system says.
    pub fn system(content: &str) -> (r: ChatMessage)
        ensures
            r@ == (ChatRole::System, content@),
    {
        ChatMessage { role: ChatRole::System, content: content.to_owned() }
    }

    /// What the user says.
    pub fn user(content: &str) -> (r: ChatMessage)
        ensures
            r@ == (ChatRole::User, content@),
    {
        ChatMessage { role: ChatRole::User, content: content.to_owned() }
    }

    /// What the assistant says.
    pub fn assistant(content: &str) -> (r: ChatMessage)
        ensures
            r@ == (ChatRole::Assistant, content@),
    {
        ChatMessage { role: ChatRole::Assistant, content: content.to_owned() }
    }
}

/// Messages as mathematical values.
pub open spec fn message_views(messages: Seq<ChatMessage>) -> Seq<MessageView> {
    messages.map_values(|m: ChatMessage| m@)
}

/// What opens the turn of the assistant: with thinking an open think block,
/// without it an empty one.
pub open spec fn generation_prompt(enable_thinking: bool) -> Seq<char> {
    if enable_thinking {
        "<|im_start|>assistant\n<think>\n"@
    } else {
        "<|im_start|>assistant\n<think>\n\n</think>\n\n"@
    }
}

/// One finished turn.
pub open spec fn turn(m: MessageView) -> Seq<char> {
    "<|im_start|>"@ + m.0.spec_name() + "\n"@ + m.1 + "<|im_end|>\n"@
}

/// Finished turns, one after the other.
pub open spec fn turns(messages: Seq<MessageView>) -> Seq<char>
    decreases messages.len(),
{
    if messages.len() == 0 {
        Seq::empty()
    } else {
        turns(messages.drop_last()) + turn(messages.last())
    }
}

/// Whether the system speaks in the messages.
pub open spec fn system_speaks(messages: Seq<MessageView>) -> bool {
    exists|i: int| 0 <= i < messages.len() && (#[trigger] messages[i]).0 == ChatRole::System
}

/// The messages with the default system message before them, where there is
/// one and the system does not speak itself.
pub open spec fn with_system(
    messages: Seq<MessageView>,
    default_system: Option<Seq<char>>,
) -> Seq<MessageView> {
    match default_system {
        Some(sys) => if system_speaks(messages) {
            messages
        } else {
            seq![(ChatRole::System, sys)] + messages
        },
        None => messages,
    }
}

/// The prompt of a conversation: its turns, and the open turn of the
/// assistant.
pub open spec fn chatml(
    messages: Seq<MessageView>,
    default_system: Option<Seq<char>>,
    enable_thinking: bool,
) -> Seq<char> {
    turns(with_system(messages, default_system)) + generation_prompt(enable_thinking)
}

/// What opens the turn of the assistant.
pub fn assistant_generation_prompt(enable_thinking: bool) -> (r: &'static str)
    ensures
        r@ == generation_prompt(enable_thinking),
{
    if enable_thinking {
        "<|im_start|>assistant\n<think>\n"
    } else {
        "<|im_start|>assistant\n<think>\n\n</think>\n\n"
    }
}

proof fn lemma_one_turn(m: MessageView)
    ensures
        turns(seq![m]) == turn(m),
{
    assert(seq![m].drop_last() =~= Seq::<MessageView>::empty());
    assert(turns(Seq::<MessageView>::empty()) + turn(m) =~= turn(m));
}

/// The prompt of a conversation.
pub fn format_chatml(
    messages: &[ChatMessage],
    default_system: Option<&str>,
    enable_thinking: bool,
) -> (r: String)
    ensures
        r@ == chatml(
            message_views(messages@),
            match default_system {
                Some(s) => Some(s@),
                None => None,
            },
            enable_thinking,
        ),
{
    let ghost views: Seq<MessageView> = message_views(messages@);
    let ghost sys: Option<Seq<char>> = match default_system {
        Some(s) => Some(s@),
        None => None,
    };
    let mut has_system: bool = false;
    let mut i: usize = 0;
    while i < messages.len()
        invariant
            i <= messages@.len(),
            views == message_views(messages@),
            has_system == exists|k: int| 0 <= k < i && (#[trigger] views[k]).0 == ChatRole::System,
        decreases messages@.len() - i,
    {
        assert(views[i as int].0 == messages@[i as int].role);
        if messages[i].role == ChatRole::System {
            has_system = true;
        }
        i = i + 1;
    }
    let mut out: String = String::new();
    let ghost mut head: Seq<MessageView> = Seq::empty();
    if !has_system {
        if let Some(s) = default_system {
            out.append("<|im_start|>system\n");
            out.append(s);
            out.append("<|im_end|>\n");
            proof {
                head = seq![(ChatRole::System, s@)];
                lemma_one_turn((ChatRole::System, s@));
                reveal_strlit("<|im_start|>system\n");
                reveal_strlit("<|im_start|>");
                reveal_strlit("system");
                reveal_strlit("\n");
                assert("<|im_start|>system\n"@ =~= "<|im_start|>"@ + "system"@ + "\n"@);
                assert(out@ =~= turns(head));
            }
        }
    }
    proof {
        assert(with_system(views, sys) =~= head + views);
        assert(head + views.take(0) =~= head);
        assert(out@ =~= turns(head));
    }
    i = 0;
    while i < messages.len()
        invariant
            i <= messages@.len(),
            views == message_views(messages@),
            out@ == turns(head + views.take(i as int)),
        decreases messages@.len() - i,
    {
        let m: &ChatMessage = &messages[i];
        out.append("<|im_start|>");
        out.append(m.role.as_str());
        out.push('\n');
        out.append(m.content.as_str());
        out.append("<|im_end|>\n");
        proof {
            let next = head + views.take(i as int + 1);
            assert(views[i as int] == m@);
            assert(next.drop_last() =~= head + views.take(i as int));
            assert(next.last() == m@);
            reveal_strlit("\n");
            assert("\n"@ =~= seq!['\n']);
            assert(out@ =~= turns(next.drop_last()) + turn(m@));
        }
        i = i + 1;
    }
    proof {
        assert(views.take(views.len() as int) == views);
    }
    out.append(assistant_generation_prompt(enable_thinking));
    out
}

/// A finished turn, letter for letter: the mark of a beginning, the name of who
/// speaks, the text on the lines after it, and the mark of an end.
pub proof fn law_turn_text(m: MessageView)
    ensures
        m.0 == ChatRole::System ==> turn(m) == "<|im_start|>system\n"@ + m.1 + "<|im_end|>\n"@,
        m.0 == ChatRole::User ==> turn(m) == "<|im_start|>user\n"@ + m.1 + "<|im_end|>\n"@,
        m.0 == ChatRole::Assistant ==> turn(m) == "<|im_start|>assistant\n"@ + m.1
            + "<|im_end|>\n"@,
{
    reveal_strlit("<|im_start|>");
    reveal_strlit("\n");
    reveal_strlit("system");
    reveal_strlit("user");
    reveal_strlit("assistant");
    reveal_strlit("<|im_start|>system\n");
    reveal_strlit("<|im_start|>user\n");
    reveal_strlit("<|im_start|>assistant\n");
    assert("<|im_start|>system\n"@ =~= "<|im_start|>"@ + "system"@ + "\n"@);
    assert("<|im_start|>user\n"@ =~= "<|im_start|>"@ + "user"@ + "\n"@);
    assert("<|im_start|>assistant\n"@ =~= "<|im_start|>"@ + "assistant"@ + "\n"@);
}

/// What opens the assistant's turn begins as every turn of the assistant does, and
/// its think block is open with thinking and closed and empty without it.
pub proof fn law_generation_prompt(thinking: bool)
    ensures
        "<|im_start|>assistant\n"@.is_prefix_of(generation_prompt(thinking)),
        generation_prompt(true) == "<|im_start|>assistant\n"@ + "<think>\n"@,
        generation_prompt(false) == generation_prompt(true) + "\n</think>\n\n"@,
{
    reveal_strlit("<|im_start|>assistant\n");
    reveal_strlit("<think>\n");
    reveal_strlit("\n</think>\n\n");
    reveal_strlit("<|im_start|>assistant\n<think>\n");
    reveal_strlit("<|im_start|>assistant\n<think>\n\n</think>\n\n");
    assert(generation_prompt(true) =~= "<|im_start|>assistant\n"@ + "<think>\n"@);
    assert(generation_prompt(false) =~= generation_prompt(true) + "\n</think>\n\n"@);
}

/// The turns of two conversations, one after the other, are the turns of both.
pub proof fn law_turns_join(a: Seq<MessageView>, b: Seq<MessageView>)
    ensures
        turns(a + b) == turns(a) + turns(b),
    decreases b.len(),
{
    if b.len() == 0 {
        assert(a + b =~= a);
        assert(turns(a) + turns(b) =~= turns(a));
    } else {
        law_turns_join(a, b.drop_last());
        assert((a + b).drop_last() =~= a + b.drop_last());
        assert(turns(a + b) =~= turns(a) + (turns(b.drop_last()) + turn(b.last())));
    }
}

/// A prompt ends with the open turn of the assistant, whoever spoke last.
pub proof fn law_prompt_opens_assistant_turn(
    messages: Seq<MessageView>,
    default_system: Option<Seq<char>>,
    enable_thinking: bool,
)
    ensures
        ({
            let prompt = chatml(messages, default_system, enable_thinking);
            let open = generation_prompt(enable_thinking);
            prompt.len() >= open.len() && prompt.skip(prompt.len() - open.len()) == open
        }),
{
    let prompt = chatml(messages, default_system, enable_thinking);
    let open = generation_prompt(enable_thinking);
    assert(prompt.skip(prompt.len() - open.len()) =~= open);
}

/// The default system message comes first, and only where the system does not
/// speak itself.
pub proof fn law_default_system_first(
    messages: Seq<MessageView>,
    sys: Seq<char>,
    enable_thinking: bool,
)
    ensures
        system_speaks(messages) ==> chatml(messages, Some(sys), enable_thinking) == chatml(
            messages,
            None,
            enable_thinking,
        ),
        !system_speaks(messages) ==> chatml(messages, Some(sys), enable_thinking) == turn(
            (ChatRole::System, sys),
        ) + chatml(messages, None, enable_thinking),
{
    let head: Seq<MessageView> = seq![(ChatRole::System, sys)];
    law_turns_join(head, messages);
    lemma_one_turn((ChatRole::System, sys));
    assert(!system_speaks(messages) ==> chatml(messages, Some(sys), enable_thinking) =~= turn(
        (ChatRole::System, sys),
    ) + chatml(messages, None, enable_thinking));
}

/// The prompt of a conversation without a default system message holds the turns as they
/// are said, one after the other; one more turn stands right before the open turn.
pub proof fn law_prompt_grows(messages: Seq<MessageView>, m: MessageView, enable_thinking: bool)
    ensures
        chatml(messages.push(m), None, enable_thinking) == turns(messages) + turn(m)
            + generation_prompt(enable_thinking),
        chatml(Seq::empty(), None, enable_thinking) == generation_prompt(enable_thinking),
{
    assert(messages.push(m).drop_last() =~= messages);
    assert(chatml(Seq::empty(), None, enable_thinking) =~= generation_prompt(enable_thinking));
}

} // verus!
