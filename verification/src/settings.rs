//! User settings (the non-numeric-tuning part of `settings.json`), with the
//! shipped defaults.
use vstd::prelude::*;

use crate::types::{ActivationMode, BackendChoice};

verus! {

/// User settings read by the agent core.
#[derive(Debug, Clone)]
pub struct LoSettings {
    /// Brain model id/path for the active backend (MLX id, GGUF ref, or Ollama tag).
    pub model: String,
    /// Speech-to-text model id/path.
    pub asr_model: String,
    /// Text-to-speech model id.
    pub tts_model: String,
    /// Kokoro voice, e.g. `af_heart`.
    pub voice: String,
    pub activation_mode: ActivationMode,
    /// How Lo addresses the user.
    pub user_name: String,
    pub voice_enabled: bool,
    /// Top-k sampling (local engines only; 0 omits it).
    pub top_k: u32,
    /// `Auto` (MLX on Apple Silicon, llama.cpp elsewhere) or an explicit engine.
    pub backend: BackendChoice,
    /// Custom OpenAI-compatible base URL (used when the backend is custom).
    pub llm_url: String,
    /// Optional bearer key for the custom endpoint.
    pub llm_key: String,
    /// When true, the confirm/danger tools run.
    pub power_user_mode: bool,
    /// Directories the filesystem tools may touch (empty means the home dir).
    pub allowed_fs_roots: Vec<String>,
    /// Persist the rolling conversation transcript across restarts.
    pub persist_history: bool,
    /// VAD hangover before a segment ends, in milliseconds.
    pub vad_redemption_ms: u32,
}

/// The model id shipped in the defaults.
pub open spec fn default_model() -> Seq<char> {
    "mlx-community/Qwen3-Coder-30B-A3B-Instruct-4bit-DWQ"@
}

impl LoSettings {
    /// The settings `settings` takes when no `settings.json` overrides them.
    pub open spec fn is_default(self) -> bool {
        &&& self.model@ == default_model()
        &&& self.asr_model@ == "mlx-community/parakeet-tdt-0.6b-v3"@
        &&& self.tts_model@ == "onnx-community/Kokoro-82M-v1.0-ONNX"@
        &&& self.voice@ == "af_heart"@
        &&& self.activation_mode == ActivationMode::Ptt
        &&& self.user_name@ == "there"@
        &&& self.voice_enabled
        &&& self.top_k == 40
        &&& self.backend == BackendChoice::Auto
        &&& self.llm_url@ == Seq::<char>::empty()
        &&& self.llm_key@ == Seq::<char>::empty()
        &&& !self.power_user_mode
        &&& self.allowed_fs_roots@.len() == 0
        &&& !self.persist_history
        &&& self.vad_redemption_ms == 900
    }
}

impl Default for LoSettings {
    fn default() -> (r: Self)
        ensures
            r.is_default(),
    {
        LoSettings {
            model: String::from_str("mlx-community/Qwen3-Coder-30B-A3B-Instruct-4bit-DWQ"),
            asr_model: String::from_str("mlx-community/parakeet-tdt-0.6b-v3"),
            tts_model: String::from_str("onnx-community/Kokoro-82M-v1.0-ONNX"),
            voice: String::from_str("af_heart"),
            activation_mode: ActivationMode::Ptt,
            user_name: String::from_str("there"),
            voice_enabled: true,
            top_k: 40,
            backend: BackendChoice::Auto,
            llm_url: String::new(),
            llm_key: String::new(),
            power_user_mode: false,
            allowed_fs_roots: Vec::new(),
            persist_history: false,
            vad_redemption_ms: 900,
        }
    }
}

} // verus!
