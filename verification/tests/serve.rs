//! Requests and answers of the server.
use taraference::chat::ChatRole;
use taraference::cli::serve::{
    completion_id, finish_reason, last_user_preview, map_messages, plan_chat, stream_error,
    truncate, ChatMessageIn, ChatRequest, StreamPart, Usage, STREAM_END,
};
use taraference::session::StopReason;

fn said(role: &str, content: &str) -> ChatMessageIn {
    ChatMessageIn { role: role.to_string(), content: content.to_string() }
}

#[test]
fn roles_are_known_in_any_case() {
    let m = map_messages(&[said("System", "s"), said("USER", "u"), said("assistant", "a")]).unwrap();
    let roles: Vec<ChatRole> = m.iter().map(|x| x.role).collect();
    assert_eq!(roles, vec![ChatRole::System, ChatRole::User, ChatRole::Assistant]);
    assert_eq!(m[1].content, "u");
}

#[test]
fn other_roles_are_refused() {
    let e = map_messages(&[said("user", "u"), said("Tool", "x"), said("bad", "y")]).unwrap_err();
    assert_eq!(e, "unsupported role \"tool\" (use system|user|assistant)");
}

#[test]
fn the_last_words_of_the_user_are_shown() {
    let all = vec![said("user", "one"), said("User", "two"), said("assistant", "three")];
    assert_eq!(last_user_preview(&all), "two");
    assert_eq!(last_user_preview(&all[2..]), "(no user message)");
    let long = "é".repeat(61);
    assert_eq!(last_user_preview(&[said("user", &long)]), format!("{}…", "é".repeat(60)));
}

#[test]
fn texts_are_cut() {
    assert_eq!(truncate("abc", 3), "abc");
    assert_eq!(truncate("abcd", 3), "abc…");
    assert_eq!(truncate("", 0), "");
    assert_eq!(truncate("a", 0), "…");
}

#[test]
fn a_request_is_planned() {
    let req = ChatRequest {
        messages: vec![said("user", "hi")],
        max_tokens: None,
        max_completion_tokens: Some(9),
        stream: Some(true),
    };
    let p = plan_chat(&req).unwrap();
    assert_eq!(p.max_tokens, Some(9));
    assert!(p.stream);
    assert_eq!(p.messages.len(), 1);
    let both = ChatRequest { max_tokens: Some(3), stream: None, ..req };
    let p = plan_chat(&both).unwrap();
    assert_eq!(p.max_tokens, Some(3));
    assert!(!p.stream);
}

#[test]
fn a_request_needs_messages_with_roles() {
    let empty = ChatRequest {
        messages: vec![],
        max_tokens: None,
        max_completion_tokens: None,
        stream: None,
    };
    assert_eq!(plan_chat(&empty).unwrap_err(), "messages must not be empty");
    let bad = ChatRequest { messages: vec![said("x", "hi")], ..empty };
    assert!(plan_chat(&bad).unwrap_err().starts_with("unsupported role \"x\""));
}

#[test]
fn replies_end_for_a_reason() {
    assert_eq!(finish_reason(StopReason::Eos), "stop");
    assert_eq!(finish_reason(StopReason::Empty), "stop");
    assert_eq!(finish_reason(StopReason::MaxNew), "length");
    let u = Usage::of(11, 31);
    assert_eq!((u.prompt_tokens, u.completion_tokens, u.total_tokens), (11, 31, 42));
}

#[test]
fn a_streamed_answer_gives_the_reply() {
    let mut parts = vec![StreamPart::first()];
    for p in ["he", "llo"] {
        parts.push(StreamPart::piece(p));
    }
    parts.push(StreamPart::last(StopReason::Eos));
    assert_eq!(parts[0].role, Some("assistant"));
    assert_eq!(parts[3].finish_reason, Some("stop"));
    let whole: String = parts.iter().filter_map(|p| p.content.clone()).collect();
    assert_eq!(whole, "hello");
    assert_eq!(STREAM_END, "[DONE]");
    assert_eq!(completion_id("ab-c"), "chatcmpl-ab-c");
    assert_eq!(
        stream_error("no card"),
        "{\"error\":{\"message\":\"no card\",\"type\":\"server_error\"}}"
    );
}
