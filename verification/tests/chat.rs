//! Prompts of the chat format.
use taraference::chat::{format_chatml, ChatMessage};

#[test]
fn chatml_injects_default_system() {
    let msgs = [ChatMessage::user("hi")];
    let s = format_chatml(&msgs, Some("You are helpful."), false);
    assert!(s.starts_with("<|im_start|>system\nYou are helpful."));
    assert!(s.contains("<|im_start|>user\nhi"));
    assert!(s.ends_with("<|im_start|>assistant\n<think>\n\n</think>\n\n"));
}

#[test]
fn chatml_thinking_opens_think_block() {
    let msgs = [ChatMessage::user("hi")];
    let s = format_chatml(&msgs, None, true);
    assert!(s.ends_with("<|im_start|>assistant\n<think>\n"));
    assert!(!s.contains("</think>"));
}

#[test]
fn the_assistant_is_always_asked() {
    let msgs = [ChatMessage::user("hi"), ChatMessage::assistant("yes")];
    assert_eq!(
        format_chatml(&msgs, None, false),
        "<|im_start|>user\nhi<|im_end|>\n<|im_start|>assistant\nyes<|im_end|>\n\
         <|im_start|>assistant\n<think>\n\n</think>\n\n"
    );
    assert_eq!(format_chatml(&[], None, true), "<|im_start|>assistant\n<think>\n");
}
