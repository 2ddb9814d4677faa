use lo::backends::{
    normalize_base, parse_u16, parse_u32, port, resolve_backend_kind_for, resolve_endpoint, resolve_model_id, EndpointEnv,
    AUTO_MODEL, DEFAULT_MODEL_SENTINEL, LLAMA_PORT, MLX_PORT,
};
use lo::models::{gguf_file_for, gguf_ref_for_model, model_tiers, recommend_tier_for_bytes, tier_for_model};
use lo::settings::LoSettings;
use lo::types::{BackendChoice, BackendKind};

fn no_env() -> EndpointEnv {
    EndpointEnv {
        llm_url: None,
        llm_key: None,
        llm_model: None,
        brain_port: None,
        engine_model: None,
        llama_port: None,
        llama_model_id: None,
        ollama_url: None,
        ollama_model: None,
        ollama_key: None,
        is_apple_silicon: false,
    }
}

#[test]
fn auto_selects_mlx_on_apple_silicon_else_llama() {
    assert_eq!(resolve_backend_kind_for(BackendChoice::Auto, false, true), BackendKind::Mlx);
    assert_eq!(resolve_backend_kind_for(BackendChoice::Auto, false, false), BackendKind::Llama);
}

#[test]
fn custom_url_or_choice_forces_custom() {
    assert_eq!(resolve_backend_kind_for(BackendChoice::Mlx, true, true), BackendKind::Custom);
    assert_eq!(resolve_backend_kind_for(BackendChoice::Custom, false, false), BackendKind::Custom);
}

#[test]
fn explicit_choices_pass_through() {
    assert_eq!(resolve_backend_kind_for(BackendChoice::Ollama, false, true), BackendKind::Ollama);
    assert_eq!(resolve_backend_kind_for(BackendChoice::Llama, false, true), BackendKind::Llama);
}

#[test]
fn auto_model_uses_ram_ladder_per_backend() {
    let gb8 = 8u64 * 1_000_000_000;
    assert_eq!(resolve_model_id(AUTO_MODEL, BackendKind::Mlx, gb8), "mlx-community/Qwen3-4B-4bit");
    assert_eq!(resolve_model_id(AUTO_MODEL, BackendKind::Ollama, gb8), "qwen3:4b");
    assert!(resolve_model_id(AUTO_MODEL, BackendKind::Llama, gb8).contains("Qwen3-4B"));
    let gb64 = 64u64 * 1_000_000_000;
    assert_eq!(
        resolve_model_id(DEFAULT_MODEL_SENTINEL, BackendKind::Mlx, gb64),
        "mlx-community/Qwen3-Coder-30B-A3B-Instruct-4bit-DWQ"
    );
}

#[test]
fn explicit_model_is_honored_verbatim() {
    let gb8 = 8u64 * 1_000_000_000;
    assert_eq!(
        resolve_model_id("mlx-community/Qwen3-14B-4bit", BackendKind::Mlx, gb8),
        "mlx-community/Qwen3-14B-4bit"
    );
    assert_eq!(resolve_model_id(AUTO_MODEL, BackendKind::Custom, gb8), AUTO_MODEL);
}

#[test]
fn normalize_base_strips_trailing_slashes() {
    assert_eq!(normalize_base("http://host:1234/v1/"), "http://host:1234/v1");
    assert_eq!(normalize_base("http://host:1234/v1///"), "http://host:1234/v1");
    assert_eq!(normalize_base("  http://h/v1  "), "http://h/v1");
}

#[test]
fn ram_ladder_uses_80_percent_headroom() {
    let gb = 1_000_000_000u64;
    assert_eq!(recommend_tier_for_bytes(32 * gb).label, "Qwen3-14B");
    assert_eq!(recommend_tier_for_bytes(40 * gb).label, "Qwen3-Coder-30B-A3B");
    assert_eq!(recommend_tier_for_bytes(20 * gb).label, "Qwen3-8B");
    assert_eq!(recommend_tier_for_bytes(16 * gb).label, "Qwen3-4B");
    assert_eq!(recommend_tier_for_bytes(4 * gb).label, "Qwen3-4B");
}

#[test]
fn gguf_ref_resolution() {
    let r = "unsloth/Qwen3-8B-GGUF:Qwen3-8B-UD-Q4_K_XL.gguf";
    assert_eq!(gguf_ref_for_model(r), r);
    assert_eq!(gguf_ref_for_model("mlx-community/Qwen3-8B-4bit"), "unsloth/Qwen3-8B-GGUF:Qwen3-8B-UD-Q4_K_XL.gguf");
    assert_eq!(gguf_ref_for_model("nobody/unknown"), "");
}

#[test]
fn gguf_filename_from_id() {
    assert_eq!(gguf_file_for("mlx-community/Qwen3-8B-4bit"), "Qwen3-8B-4bit.gguf");
    assert_eq!(gguf_file_for("owner/repo/weights.gguf"), "weights.gguf");
    assert_eq!(gguf_file_for("unsloth/Qwen3-8B-GGUF:Qwen3-8B-UD-Q4_K_XL.gguf"), "Qwen3-8B-UD-Q4_K_XL.gguf");
    for tier in model_tiers() {
        let name = gguf_file_for(tier.gguf);
        assert!(!name.contains(':'), "{} has a colon: {name}", tier.label);
        assert!(name.ends_with(".gguf"), "{} not .gguf: {name}", tier.label);
    }
}

#[test]
fn tier_lookup_by_either_artifact() {
    assert_eq!(tier_for_model("mlx-community/Qwen3-8B-4bit").map(|t| t.label), Some("Qwen3-8B"));
    assert_eq!(
        tier_for_model("unsloth/Qwen3-14B-GGUF:Qwen3-14B-UD-Q4_K_XL.gguf").map(|t| t.label),
        Some("Qwen3-14B")
    );
    assert!(tier_for_model("nobody/unknown").is_none());
}

#[test]
fn ladder_boundaries_in_bytes() {
    // 80% of the machine must cover the tier's minimum: 10 GB is exactly enough for 8 GB.
    assert_eq!(recommend_tier_for_bytes(40_000_000_000).label, "Qwen3-Coder-30B-A3B");
    assert_eq!(recommend_tier_for_bytes(39_999_999_999).label, "Qwen3-14B");
    assert_eq!(recommend_tier_for_bytes(0).label, "Qwen3-4B");
}

#[test]
fn parse_numbers_like_std() {
    assert_eq!(parse_u16("8080"), Some(8080));
    assert_eq!(parse_u16("+8080"), Some(8080));
    assert_eq!(parse_u16("65535"), Some(65535));
    assert_eq!(parse_u16("65536"), None);
    assert_eq!(parse_u16(""), None);
    assert_eq!(parse_u16("+"), None);
    assert_eq!(parse_u16("80a"), None);
    assert_eq!(parse_u32("4294967295"), Some(4294967295));
    assert_eq!(parse_u32("4294967296"), None);
    assert_eq!(parse_u32("8192"), Some(8192));
}

#[test]
fn port_overrides_must_be_nonzero_numbers() {
    assert_eq!(port(&None, MLX_PORT), 8765);
    assert_eq!(port(&Some(" 9000 ".to_string()), MLX_PORT), 9000);
    assert_eq!(port(&Some("0".to_string()), LLAMA_PORT), 8770);
    assert_eq!(port(&Some("nope".to_string()), LLAMA_PORT), 8770);
}

#[test]
fn endpoints_per_backend() {
    let mut s = LoSettings::default();
    s.backend = BackendChoice::Llama;
    let e = resolve_endpoint(&s, &no_env());
    assert_eq!(e.kind, BackendKind::Llama);
    assert_eq!(e.base_url, "http://127.0.0.1:8770/v1");
    assert_eq!(e.model_id, s.model);
    assert!(e.api_key.is_none());

    s.backend = BackendChoice::Ollama;
    let mut env = no_env();
    env.ollama_url = Some("http://box:11434/".to_string());
    let e = resolve_endpoint(&s, &env);
    assert_eq!(e.base_url, "http://box:11434/v1");
    assert_eq!(e.api_key.as_deref(), Some("ollama"));

    s.backend = BackendChoice::Auto;
    let mut env = no_env();
    env.llm_url = Some(" https://api.example.com/v1/ ".to_string());
    env.llm_key = Some(" k ".to_string());
    let e = resolve_endpoint(&s, &env);
    assert_eq!(e.kind, BackendKind::Custom);
    assert_eq!(e.base_url, "https://api.example.com/v1");
    assert_eq!(e.api_key.as_deref(), Some("k"));

    s.backend = BackendChoice::Mlx;
    let mut env = no_env();
    env.brain_port = Some("9001".to_string());
    env.engine_model = Some("my/model".to_string());
    let e = resolve_endpoint(&s, &env);
    assert_eq!(e.base_url, "http://127.0.0.1:9001/v1");
    assert_eq!(e.model_id, "my/model");
}

#[test]
fn recommendation_grows_with_ram_and_file_names_are_plain() {
    let gb: u64 = 1_000_000_000;
    let mut last = 0;
    for g in [0u64, 4, 8, 10, 16, 20, 24, 30, 32, 40, 64, 128] {
        let t = recommend_tier_for_bytes(g * gb);
        assert!(t.min_ram_gb >= last);
        last = t.min_ram_gb;
    }
    for id in ["", "org/repo/", "a:b/c:d", "x.gguf", "unsloth/Qwen3-8B-GGUF:Qwen3-8B-UD-Q4_K_XL.gguf"] {
        let f = gguf_file_for(id);
        assert!(f.ends_with(".gguf") && !f.contains('/') && !f.contains(':'), "{f}");
    }
    assert_eq!(gguf_file_for(""), "model.gguf");
    assert_eq!(gguf_file_for("org/repo/"), "repo.gguf");
}
