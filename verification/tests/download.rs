//! Which models a request means.
use taraference::cli::download::{
    authorization, download_step, hf_url, is_success, known_tags_hint, model_catalog,
    select_models, supported_models, DownloadStep, ModelSizeClass,
};

fn tags(which: &str) -> Vec<&'static str> {
    select_models(which).unwrap().iter().map(|m| m.tag).collect()
}

#[test]
fn every_tag_selects_its_model() {
    for m in supported_models() {
        assert_eq!(tags(m.tag), vec![m.tag]);
        assert_eq!(tags(&m.tag.to_uppercase()), vec![m.tag]);
        assert_eq!(tags(m.file), vec![m.tag]);
    }
}

#[test]
fn groups_select_several() {
    assert_eq!(tags(""), vec!["0.8b", "4b"]);
    assert_eq!(tags(" ALL "), vec!["0.8b", "4b"]);
    assert_eq!(tags("small"), vec!["0.8b", "2b", "4b"]);
    assert_eq!(tags("mid"), vec!["9b"]);
    assert_eq!(tags("larger"), vec!["9b"]);
    assert_eq!(tags("ladder"), vec!["0.8b", "4b", "9b"]);
    assert_eq!(tags("all-sizes"), vec!["0.8b", "2b", "4b", "9b", "3b-qwen25"]);
}

#[test]
fn words_select_one_by_one() {
    assert_eq!(tags("9b,2b + 9b"), vec!["9b", "2b"]);
    assert_eq!(tags("08b"), vec!["0.8b"]);
    assert_eq!(tags("0.5b 3b"), vec!["0.8b", "4b"]);
    assert_eq!(tags("instruct"), vec!["3b-qwen25"]);
}

#[test]
fn the_list_selects_nothing() {
    for w in ["list", "help", "?", " List "] {
        assert!(tags(w).is_empty());
    }
}

#[test]
fn unknown_words_are_refused() {
    assert_eq!(
        select_models("70b").err().unwrap().message(),
        "unknown download target \"70b\"; use list | all | small | medium | profile | everything | 0.8b | 2b | 4b | 9b | 3b-qwen25"
    );
    assert_eq!(
        select_models("a\"b").err().unwrap().message(),
        format!("unknown download target {:?}; {}", "a\"b", known_tags_hint())
    );
    assert_eq!(
        select_models(",+").err().unwrap().message(),
        format!("no models selected; {}", known_tags_hint())
    );
}

#[test]
fn files_are_fetched_from_their_repository() {
    assert_eq!(hf_url("a/b", "c.gguf"), "https://huggingface.co/a/b/resolve/main/c.gguf");
    let m = supported_models()[1];
    assert!(matches!(download_step(&m, true, false), DownloadStep::Keep));
    match download_step(&m, true, true) {
        DownloadStep::Fetch(url) => assert_eq!(
            url,
            "https://huggingface.co/unsloth/Qwen3.5-2B-GGUF/resolve/main/Qwen3.5-2B-Q4_K_M.gguf"
        ),
        other => panic!("{other:?}"),
    }
    assert!(matches!(download_step(&m, false, false), DownloadStep::Fetch(_)));
}

#[test]
fn tokens_are_sent_when_they_are_set() {
    assert_eq!(authorization(Some("x"), Some("y")).unwrap(), "Bearer x");
    assert_eq!(authorization(None, Some("y")).unwrap(), "Bearer y");
    assert!(authorization(Some(""), Some("y")).is_none());
    assert!(authorization(None, None).is_none());
    assert!(is_success(204));
    assert!(!is_success(301));
    assert!(!is_success(199));
}

#[test]
fn the_catalogue_is_a_table() {
    let page = model_catalog();
    let mut want = String::new();
    want += "Supported GGUF downloads (Qwen3.5 Q4_K_M via unsloth; + legacy 3b-qwen25):\n\n";
    want += &format!("  {:10}  {:6}  {:40}  {}\n", "tag", "class", "file", "note");
    want += &format!("  {}\n", "-".repeat(90));
    for m in supported_models() {
        let class = match m.size {
            ModelSizeClass::Small => "small",
            ModelSizeClass::Medium => "medium",
            ModelSizeClass::Large => "large",
        };
        let gib = m.approx_tenths as f32 / 10.0;
        want += &format!(
            "  {:10}  {:6}  {:40}  ~{:.1} GiB — {}\n",
            m.tag, class, m.file, gib, m.note
        );
    }
    assert!(page.starts_with(&want));
    assert!(page.ends_with("  tarafer --download list\n"));
    assert!(page.contains("  all       → 0.8b + 4b only (fast install)\n"));
}
