//! The attention paths and their names.
use taraference::cuda::decode::DecodeBackend;

#[test]
fn default_is_marked() {
    let d = DecodeBackend::default();
    assert!(d.spec().is_default);
    assert_eq!(d.name(), "fastv2");
}

#[test]
fn parse_aliases() {
    assert_eq!(DecodeBackend::parse_name("fastv2").unwrap().name(), "fastv2");
    assert_eq!(DecodeBackend::parse_name("v1").unwrap().name(), "fast");
    assert_eq!(
        DecodeBackend::parse_name("default").unwrap().name(),
        DecodeBackend::default().name()
    );
}

#[test]
fn symbols_cover_registry() {
    let syms = DecodeBackend::required_kernel_symbols();
    assert!(syms.contains(&"attn_fast_v2"));
    assert!(syms.contains(&"attn_flash_partial"));
    assert!(syms.contains(&"attn_online_f32"));
}

#[test]
fn kernels_are_named_once_in_order() {
    assert_eq!(
        DecodeBackend::required_kernel_symbols(),
        vec![
            "attn_fast_v2",
            "attn_fast_v2_d",
            "attn_flash_partial",
            "attn_flash_partial_d",
            "attn_flash_reduce",
            "attn_fast_v1",
            "attn_basic_f32",
            "attn_online_f32",
        ]
    );
}

#[test]
fn the_help_names_every_backend() {
    let help = DecodeBackend::list_help();
    assert!(help.starts_with("fastv2 — v2: f16 KV + tiled online attn"));
    for b in DecodeBackend::all() {
        assert!(help.contains(&format!("{} — {}", b.name(), b.description())));
    }
    assert_eq!(help.matches(" [default]").count(), 1);
}
