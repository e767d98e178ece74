//! Turns, drafts and the end of a reply.
use taraference::cuda::kv::CudaKv;
use taraference::gguf::reader::GgufFile;
use taraference::session::{
    appends_end, check_prompt, prompt_lookup_draft, read_line, Action, Generation, Line,
    PromptError, Session, SessionOptions, StopReason, TURN_END,
};
use taraference::tokenizer::Tokenizer;

fn text(out: &mut Vec<u8>, s: &str) {
    out.extend_from_slice(&(s.len() as u64).to_le_bytes());
    out.extend_from_slice(s.as_bytes());
}

fn file() -> Vec<u8> {
    let mut out = Vec::new();
    out.extend_from_slice(b"GGUF");
    out.extend_from_slice(&3u32.to_le_bytes());
    out.extend_from_slice(&0u64.to_le_bytes());
    out.extend_from_slice(&2u64.to_le_bytes());
    for (key, items) in [
        (
            "tokenizer.ggml.tokens",
            vec!["<|im_end|>", "a", "b", "c", "d", "e", "f", "<|im_start|>"],
        ),
        ("tokenizer.ggml.merges", vec![]),
    ] {
        text(&mut out, key);
        out.extend_from_slice(&9u32.to_le_bytes());
        out.extend_from_slice(&8u32.to_le_bytes());
        out.extend_from_slice(&(items.len() as u64).to_le_bytes());
        for i in items {
            text(&mut out, i);
        }
    }
    out
}

fn tokenizer() -> Tokenizer {
    let bytes = file();
    let f = GgufFile::open("t".to_string(), &bytes).unwrap();
    Tokenizer::from_gguf(&f).unwrap()
}

fn cache(len: usize, max_seq: usize) -> CudaKv {
    CudaKv { is_full: vec![true], len, max_seq }
}

#[test]
fn usual_options() {
    let d = SessionOptions::default();
    assert_eq!(d.max_new, 512);
    assert!(d.print_stream && d.print_stats && !d.enable_thinking);
    assert_eq!(d.system, "You are a helpful assistant.");
    let q = SessionOptions::quiet(7);
    assert!(!q.print_stream && !q.print_stats);
    assert_eq!((q.max_new, q.seed), (7, 42));
    assert!(SessionOptions::interactive(7).print_stats);
}

#[test]
fn the_first_turn_has_the_system_message() {
    let mut kv = cache(0, 100);
    let mut s = Session::with_kv(&kv, SessionOptions::quiet(8));
    let (p, first) = s.begin_turn(&mut kv, "hi", false);
    assert!(first);
    assert_eq!(
        p,
        "<|im_start|>system\nYou are a helpful assistant.<|im_end|>\n<|im_start|>user\nhi<|im_end|>\n<|im_start|>assistant\n<think>\n\n</think>\n\n"
    );
    let (p, first) = s.begin_turn(&mut kv, "more", false);
    assert!(!first);
    assert!(p.starts_with("<|im_start|>user\nmore<|im_end|>\n"));
    s.reset(&mut kv);
    assert!(!s.primed);
}

#[test]
fn a_model_that_is_asked_once_forgets() {
    let mut kv = cache(20, 100);
    let mut s = Session::with_kv(&kv, SessionOptions::quiet(8));
    assert!(s.primed);
    s.history = vec![1, 2];
    let (p, first) = s.begin_turn(&mut kv, "hi", true);
    assert!(first);
    assert_eq!(kv.len, 0);
    assert!(s.history.is_empty());
    assert_eq!(
        p,
        "<|system|>You are a helpful assistant.<|/system|>\n<|user|>hi<|/user|>\n<|assistant|>"
    );
}

#[test]
fn a_seed_of_zero_counts_as_one() {
    let kv = cache(0, 10);
    let mut o = SessionOptions::quiet(1);
    o.seed = 0;
    assert_eq!(Session::with_kv(&kv, o).rng_state, 1);
}

#[test]
fn what_followed_before_is_drafted() {
    let tok = tokenizer();
    let history = vec![1, 2, 3, 4, 5, 6, 1];
    assert_eq!(prompt_lookup_draft(&tok, &history, 2, 8), vec![3, 4, 5, 6, 1]);
    assert_eq!(prompt_lookup_draft(&tok, &history, 2, 3), vec![3, 4, 5]);
    assert!(prompt_lookup_draft(&tok, &history, 2, 1).is_empty());
    assert!(prompt_lookup_draft(&tok, &history, 5, 8).is_empty());
    assert!(prompt_lookup_draft(&tok, &vec![1, 2, 1], 2, 8).is_empty());
}

#[test]
fn a_draft_stops_at_a_marked_token() {
    let tok = tokenizer();
    let history = vec![1, 2, 3, 4, 7, 6, 1];
    assert_eq!(prompt_lookup_draft(&tok, &history, 2, 8), vec![3, 4]);
}

#[test]
fn a_reply_ends_with_its_end_token() {
    let tok = tokenizer();
    let mut g = Generation::start(&tok, 5, 1);
    let (piece, action) = g.step(&tok, &vec![], false, false);
    assert_eq!(piece.unwrap(), "a");
    assert!(matches!(action, Action::One(1)));
    let mut history = Vec::new();
    g.take_one(&mut history);
    assert_eq!(history, vec![1]);
    g.choose_next(0);
    let (piece, action) = g.step(&tok, &history, false, false);
    assert!(piece.is_none());
    assert!(matches!(action, Action::Done));
    assert_eq!(g.outcome(), (StopReason::Eos, false));
    assert_eq!(g.reply, "a");
}

#[test]
fn a_reply_may_be_empty_or_cut() {
    let tok = tokenizer();
    let mut g = Generation::start(&tok, 5, 0);
    g.step(&tok, &vec![], false, false);
    assert_eq!(g.outcome(), (StopReason::Empty, false));
    let mut g = Generation::start(&tok, 1, 2);
    let (_, action) = g.step(&tok, &vec![], false, false);
    assert!(matches!(action, Action::Done));
    assert_eq!(g.outcome(), (StopReason::MaxNew, true));
    let mut g = Generation::start(&tok, 2, 0);
    let (piece, _) = g.step(&tok, &vec![], true, false);
    assert_eq!(piece.unwrap(), "<|im_end|>");
}

#[test]
fn a_draft_is_taken_as_far_as_the_model_agrees() {
    let tok = tokenizer();
    let mut history = vec![1, 2, 3, 4, 5, 6, 1];
    let mut g = Generation::start(&tok, 10, 2);
    let (_, action) = g.step(&tok, &history, false, true);
    let verify = match action {
        Action::Verify(v) => v,
        other => panic!("{other:?}"),
    };
    assert_eq!(verify, vec![2, 3, 4, 5, 6, 1]);
    let taken = g.take_draft(&tok, &mut history, &verify, &vec![3, 4, 1, 9, 9, 9]);
    assert_eq!(taken.accepted, 2);
    assert_eq!(taken.pieces, vec!["c", "d"]);
    assert!(!taken.done);
    assert_eq!(g.next, 1);
    assert_eq!(g.reply, "bcd");
    assert_eq!(history, vec![1, 2, 3, 4, 5, 6, 1, 2, 3, 4]);
    assert_eq!((g.passes, g.proposed, g.accepted), (1, 5, 2));
    let mut kv = cache(13, 20);
    taken.trim(&mut kv, verify.len());
    assert_eq!((kv.len, history.len()), (10, 10));
}

#[test]
fn the_texts_of_a_generation_are_its_reply() {
    let tok = tokenizer();
    let mut history = vec![1, 2, 3, 4, 5, 6, 1];
    let mut g = Generation::start(&tok, 4, 2);
    let mut shown = Vec::new();
    let (piece, action) = g.step(&tok, &history, false, true);
    shown.extend(piece);
    let verify = match action {
        Action::Verify(v) => v,
        other => panic!("{other:?}"),
    };
    assert_eq!(verify, vec![2, 3, 4, 5]);
    let taken = g.take_draft(&tok, &mut history, &verify, &vec![3, 4, 6, 9]);
    shown.extend(taken.pieces);
    assert!(!g.done && g.stop == StopReason::MaxNew);
    assert_eq!(g.next, 6);
    let (piece, action) = g.step(&tok, &history, false, true);
    shown.extend(piece);
    assert!(matches!(action, Action::Done));
    assert!(g.done);
    assert_eq!(shown, vec!["b", "c", "d", "f"]);
    assert_eq!(g.reply, shown.concat());
    assert_eq!(g.reply_ids.len(), shown.len());
    assert_eq!(g.outcome(), (StopReason::MaxNew, true));
    let (piece, action) = g.step(&tok, &history, false, true);
    assert!(piece.is_none() && matches!(action, Action::Done));
    assert_eq!(g.reply, "bcdf");
}

#[test]
fn no_tokens_are_wanted() {
    let tok = tokenizer();
    let mut g = Generation::start(&tok, 0, 1);
    let (piece, action) = g.step(&tok, &vec![], false, false);
    assert!(piece.is_none() && matches!(action, Action::Done));
    assert_eq!(g.outcome(), (StopReason::Empty, false));
}

#[test]
fn tokens_that_ran_are_history() {
    let mut s = Session::with_kv(&cache(0, 10), SessionOptions::quiet(8));
    s.take_tokens(&[3, 4]);
    s.take_tokens(&[]);
    s.take_tokens(&[5]);
    assert_eq!(s.history, vec![3, 4, 5]);
    assert!(!s.primed && s.max_new == 8);
}

#[test]
fn a_prompt_of_no_tokens_is_refused() {
    assert!(check_prompt(&[7]).is_ok());
    let e = check_prompt(&[]).unwrap_err();
    assert_eq!(e, PromptError::NoTokens);
    assert_eq!(e.message(), "tokenizer produced 0 tokens for prompt");
}

#[test]
fn the_end_of_a_turn_needs_room() {
    assert_eq!(TURN_END, "<|im_end|>\n");
    assert!(appends_end(&[1, 2], &cache(7, 10)));
    assert!(!appends_end(&[1, 2], &cache(8, 10)));
    assert!(!appends_end(&[], &cache(0, 10)));
}

#[test]
fn lines_are_commands_or_text() {
    assert!(matches!(read_line("  \n"), Line::Nothing));
    assert!(matches!(read_line("/quit\n"), Line::Quit));
    assert!(matches!(read_line("/exit"), Line::Quit));
    assert!(matches!(read_line(" /reset "), Line::Reset));
    assert!(matches!(read_line(" hi there\n"), Line::Say(s) if s == "hi there"));
}
