use lo::backends::EndpointEnv;
use lo::engine::{
    env_trimmed, llama_bin_path, llama_ctx, llama_model_path, llama_server_command, mlx_server_command, needs_download,
    python_command, Engine, ManagedChange, ServerState, NO_CUSTOM_ENDPOINT,
};
use lo::settings::LoSettings;
use lo::types::{BackendChoice, BackendKind};

fn env() -> EndpointEnv {
    EndpointEnv {
        llm_url: None,
        llm_key: None,
        llm_model: None,
        brain_port: None,
        engine_model: None,
        llama_port: None,
        llama_model_id: None,
        ollama_url: None,
        ollama_model: None,
        ollama_key: None,
        is_apple_silicon: false,
    }
}

#[test]
fn status_folds_the_resolved_engine() {
    let s = LoSettings { backend: BackendChoice::Llama, ..Default::default() };
    let mut e = Engine::new();
    let st = e.status(&s, &env());
    assert!(!st.engine_up);
    assert!(st.loading);
    assert_eq!(st.detail.as_deref(), Some("Loading model…"));
    assert_eq!(st.model, s.model);

    assert_eq!(e.managed_for(BackendKind::Llama), ManagedChange::Start { stop_previous: false });
    e.report_managed(ServerState::Ready, None);
    let st = e.status(&s, &env());
    assert!(st.engine_up);
    assert_eq!(st.backend, Some(BackendKind::Llama));
    assert!(st.detail.is_none());

    e.report_managed(ServerState::Error, Some("crashed".to_string()));
    let st = e.status(&s, &env());
    assert!(!st.engine_up && !st.loading);
    assert_eq!(st.detail.as_deref(), Some("crashed"));
}

#[test]
fn switching_kinds_replaces_the_managed_server() {
    let mut e = Engine::new();
    assert_eq!(e.stop(), None);
    assert_eq!(e.managed_for(BackendKind::Mlx), ManagedChange::Start { stop_previous: false });
    e.report_managed(ServerState::Ready, None);
    assert_eq!(e.managed_for(BackendKind::Mlx), ManagedChange::Reuse);
    assert_eq!(e.current_state(BackendKind::Mlx).0, ServerState::Ready);
    assert_eq!(e.managed_for(BackendKind::Llama), ManagedChange::Start { stop_previous: true });
    assert_eq!(e.current_state(BackendKind::Llama).0, ServerState::Idle);
    assert_eq!(e.current_state(BackendKind::Mlx).0, ServerState::Idle);
    assert_eq!(e.stop(), Some(BackendKind::Llama));
}

#[test]
fn unmanaged_probes_record_health() {
    let mut e = Engine::new();
    let url = e.start_ollama_check("http://127.0.0.1:11434/v1");
    assert_eq!(url, "http://127.0.0.1:11434/api/tags");
    assert_eq!(e.current_state(BackendKind::Ollama).0, ServerState::Loading);
    assert!(e.on_ollama_health("http://127.0.0.1:11434/v1", Some(200)).is_ok());
    assert_eq!(e.current_state(BackendKind::Ollama).0, ServerState::Ready);
    let err = e.on_ollama_health("http://127.0.0.1:11434/v1", Some(404)).unwrap_err();
    assert_eq!(
        err,
        "Ollama is not reachable at http://127.0.0.1:11434. Start it with `ollama serve` and pull a tool-capable model."
    );
    assert_eq!(e.current_state(BackendKind::Custom), (ServerState::Error, Some(err.clone())));

    assert_eq!(e.start_custom_check("").unwrap_err(), NO_CUSTOM_ENDPOINT);
    assert_eq!(e.start_custom_check("https://x/v1").unwrap(), "https://x/v1/models");
    assert!(e.on_custom_health("https://x/v1", Ok(404)).is_ok());
    assert_eq!(
        e.on_custom_health("https://x/v1", Err("timed out".to_string())).unwrap_err(),
        "Custom endpoint unreachable at https://x/v1: timed out"
    );
}

#[test]
fn server_commands_are_fixed_argv() {
    let c = mlx_server_command("python3", "mlx-community/Qwen3-4B-4bit", 8765);
    assert_eq!(c.program, "python3");
    assert_eq!(
        c.args,
        vec![
            "-m", "mlx_lm", "server", "--model", "mlx-community/Qwen3-4B-4bit", "--host", "127.0.0.1", "--port", "8765",
            "--trust-remote-code"
        ]
    );
    assert_eq!(c.envs, vec![("PYTHONUNBUFFERED".to_string(), "1".to_string())]);
    assert_eq!(c.health_url, "http://127.0.0.1:8765/health");

    let c = llama_server_command("/c/llama-server", "/c/m.gguf", 8770, 8192);
    assert_eq!(
        c.args,
        vec![
            "--model", "/c/m.gguf", "--host", "127.0.0.1", "--port", "8770", "--jinja", "-fa", "--no-webui", "-ngl", "999",
            "-c", "8192"
        ]
    );
    assert!(c.envs.is_empty());
}

#[test]
fn overrides_and_paths() {
    assert_eq!(env_trimmed(&Some("  x ".to_string())), Some("x".to_string()));
    assert_eq!(env_trimmed(&Some("   ".to_string())), None);
    assert_eq!(llama_ctx(&None), 8192);
    assert_eq!(llama_ctx(&Some(" 4096 ".to_string())), 4096);
    assert_eq!(llama_ctx(&Some("0".to_string())), 8192);
    assert_eq!(python_command(&None, &Some(" /py ".to_string()), true), "/py");
    assert_eq!(python_command(&None, &None, true), ".venv-gemma-audio/bin/python");
    assert_eq!(python_command(&None, &None, false), "python3");
    assert_eq!(llama_bin_path(&None, "/cache", false), "/cache/engine/llama/llama-server");
    assert_eq!(llama_bin_path(&None, "/cache", true), "/cache/engine/llama/llama-server.exe");
    assert_eq!(llama_bin_path(&Some("/opt/ls".to_string()), "/cache", false), "/opt/ls");
    assert_eq!(llama_model_path(&None, "/cache", "mlx-community/Qwen3-8B-4bit"), "/cache/models/Qwen3-8B-4bit.gguf");
    assert!(needs_download(false, true));
    assert!(needs_download(true, false));
    assert!(!needs_download(true, true));
}
