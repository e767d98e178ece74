//! Setting up a model and planning a reply.
use taraference::backend::BackendKind;
use taraference::chat::ChatMessage;
use taraference::cuda::decode::DecodeBackend;
use taraference::engine::{
    cache_positions, default_tokenizer_candidates, model_id, name_or_usual, plan_completion,
    resolve_tokenizer, EngineConfig, TokenizerFile,
};
use taraference::sampler::SamplingOptions;

#[test]
fn default_candidates_are_relative_only() {
    for c in default_tokenizer_candidates() {
        assert!(!c.contains(':'), "no machine-local absolute paths: {c}");
        assert!(c.starts_with("models/"), "expected models/ relative path, got {c}");
    }
}

#[test]
fn a_named_tokenizer_is_the_only_one() {
    let found = resolve_tokenizer(Some(("a.gguf", true)), true, &[true]);
    assert!(matches!(found, Ok(TokenizerFile::Named)));
    let lost = resolve_tokenizer(Some(("a.gguf", false)), true, &[true]);
    assert_eq!(
        lost.unwrap_err().message(),
        "TARAFER_TOKENIZER_GGUF not a file: a.gguf"
    );
}

#[test]
fn a_tokenizer_is_looked_for_in_order() {
    assert!(matches!(resolve_tokenizer(None, true, &[true]), Ok(TokenizerFile::Local)));
    assert!(matches!(
        resolve_tokenizer(None, false, &[false, true, true]),
        Ok(TokenizerFile::Candidate(1))
    ));
    let none = resolve_tokenizer(None, false, &[false, false, false]).unwrap_err();
    assert!(none.message().starts_with("MoE pack needs a tokenizer GGUF."));
}

#[test]
fn a_completion_is_planned() {
    let msgs = vec![ChatMessage::user("hi")];
    let c = plan_completion(&msgs, Some(0), 512, "Be brief.", SamplingOptions::default(), 42);
    let c = c.unwrap();
    assert_eq!(c.opts.max_new, 1);
    assert_eq!(c.opts.system, "Be brief.");
    assert!(!c.opts.print_stream);
    assert_eq!(
        c.prompt,
        "<|im_start|>system\nBe brief.<|im_end|>\n<|im_start|>user\nhi<|im_end|>\n<|im_start|>assistant\n<think>\n\n</think>\n\n"
    );
    let usual = plan_completion(&msgs, None, 77, "x", SamplingOptions::default(), 1).unwrap();
    assert_eq!(usual.opts.max_new, 77);
}

#[test]
fn a_completion_needs_messages() {
    let e = plan_completion(&[], None, 512, "x", SamplingOptions::default(), 1).unwrap_err();
    assert_eq!(e.message(), "messages must not be empty");
}

#[test]
fn the_usual_setup() {
    let d = EngineConfig::default();
    assert_eq!((d.max_seq, d.max_new, d.cuda_graph), (5000, 512, true));
    assert_eq!(d.decode, DecodeBackend::default());
    let p = EngineConfig::for_path("m.gguf", DecodeBackend::default(), 100, 10);
    assert_eq!(p.model_path, "m.gguf");
    assert!(p.cuda_graph);
    let f = EngineConfig::with_flags("m.gguf", DecodeBackend::default(), 100, 10, false);
    assert!(!f.cuda_graph);
}

#[test]
fn a_shorter_cache_is_told() {
    let three: u64 = 3 * 1024 * 1024 * 1024;
    assert_eq!(cache_positions(BackendKind::Qwen35, 5000, 8192, three, false), (1024, Some(5000)));
    assert_eq!(cache_positions(BackendKind::Qwen2, 5000, 8192, three, false), (5000, None));
    assert_eq!(cache_positions(BackendKind::Qwen2, 5000, 2048, three, false), (2048, None));
}

#[test]
fn a_model_is_served_under_the_name_of_its_file() {
    assert_eq!(
        model_id("models/Qwen2.5-0.5B-Instruct-Q4_K_M.gguf", false),
        "Qwen2.5-0.5B-Instruct-Q4_K_M"
    );
    assert_eq!(model_id("packs/tara-1.4.1", true), "tara-1.4.1");
    assert_eq!(model_id("packs/tara-1.4.1/", true), "tara-1.4.1");
    assert_eq!(model_id("packs/tara-1.4.1//./", true), "tara-1.4.1");
    assert_eq!(model_id("packs/tara-1.4.1/.", false), "tara-1.4");
    assert_eq!(model_id("/", true), "tara-moe");
    assert_eq!(model_id("packs/..", true), "tara-moe");
    assert_eq!(model_id("packs/../", false), "taraference");
    assert_eq!(model_id("", true), "tara-moe");
    assert_eq!(model_id(".", false), "taraference");
    assert_eq!(model_id("./", true), "tara-moe");
    assert_eq!(model_id("packs/a:b.c", false), "a:b");
    let id = model_id("packs\\tara", true);
    assert!(id == "packs\\tara" || id == "tara");
    let id = model_id("C:tara.gguf", false);
    assert!(id == "C:tara" || id == "tara");
    let id = model_id("//host/share", true);
    assert!(id == "share" || id == "tara-moe");
    assert_eq!(name_or_usual(None, false), "taraference");
    assert_eq!(name_or_usual(None, true), "tara-moe");
}
