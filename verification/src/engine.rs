//! The engine facade: which managed server (MLX or llama.cpp) is active, the
//! health of the unmanaged engines (Ollama, custom), the HUD status folded from
//! them, and the exact commands and paths the managed servers are started with.
//!
//! Spawning, supervising and probing the servers is the caller's; it reports
//! what it observed back through the methods here.
use vstd::prelude::*;

use crate::backends::{
    backend_kind_spec, endpoint_spec, endpoint_view, env_set, parse_u32, parse_u32_spec, resolve_endpoint,
    BackendEndpoint, EndpointEnv, HOST,
};
use crate::chars::{decimal, ends_with, ends_with_str, push_decimal, trim, trimmed};
use crate::models::{gguf_file_for, gguf_file_spec};
use crate::paths::{join_path, path_join};
use crate::sandbox::strings;
use crate::settings::LoSettings;
use crate::types::{BackendKind, LocalStatus};

verus! {

/// The lifecycle state of a backend server.
#[derive(Debug, Clone, Copy, PartialEq, Eq, Structural)]
pub enum ServerState {
    /// Not running.
    Idle,
    /// Spawned (or being probed), waiting to become ready.
    Loading,
    /// Running and serving.
    Ready,
    /// Crashed, failed to start, or unreachable.
    Error,
}

/// What a managed server must be switched to for a requested kind.
#[derive(Debug, Clone, Copy, PartialEq, Eq, Structural)]
pub enum ManagedChange {
    /// The active server already serves this kind: reuse it.
    Reuse,
    /// Build a new server for the kind; stop the previous one first when
    /// `stop_previous`, so two engines never contend for the port.
    Start { stop_previous: bool },
}

/// The engine facade's state.
#[derive(Debug, Clone)]
pub struct Engine {
    /// The kind served by the active managed server, if one was started.
    pub active: Option<BackendKind>,
    /// The last state the active managed server reported.
    pub managed_state: ServerState,
    /// The last error the active managed server reported.
    pub managed_error: Option<String>,
    /// The last health state of the unmanaged backends (Ollama / custom).
    pub unmanaged_state: Option<ServerState>,
    /// The last error of the unmanaged backends.
    pub unmanaged_error: Option<String>,
}

/// The view of an optional string.
pub open spec fn opt_seq(o: Option<String>) -> Option<Seq<char>> {
    match o {
        Some(s) => Some(s@),
        None => None,
    }
}

/// The view of a status: `(engine_up, loading, backend, model, detail)`.
pub open spec fn status_view(s: LocalStatus) -> (bool, bool, Option<BackendKind>, Seq<char>, Option<Seq<char>>) {
    (s.engine_up, s.loading, s.backend, s.model@, opt_seq(s.detail))
}

/// The HUD status for an engine of kind `kind` serving `model` in `state`. An
/// idle engine counts as loading: a load will be kicked off.
pub open spec fn status_spec(state: ServerState, err: Option<Seq<char>>, kind: BackendKind, model: Seq<char>) -> (
    bool,
    bool,
    Option<BackendKind>,
    Seq<char>,
    Option<Seq<char>>,
) {
    match state {
        ServerState::Ready => (true, false, Some(kind), model, None),
        ServerState::Error => (false, false, None, model, err),
        _ => (false, true, None, model, Some("Loading model\u{2026}"@)),
    }
}

impl Engine {
    /// The `(state, last error)` of the engine serving `kind`: the managed server
    /// when it serves `kind` (idle otherwise) for MLX and llama.cpp, the last
    /// probe for Ollama and custom endpoints.
    pub open spec fn state_of(self, kind: BackendKind) -> (ServerState, Option<Seq<char>>) {
        match kind {
            BackendKind::Mlx | BackendKind::Llama => if self.active == Some(kind) {
                (self.managed_state, opt_seq(self.managed_error))
            } else {
                (ServerState::Idle, None)
            },
            _ => (
                match self.unmanaged_state {
                    Some(s) => s,
                    None => ServerState::Idle,
                },
                opt_seq(self.unmanaged_error),
            ),
        }
    }

    /// An idle engine: nothing started, nothing probed.
    pub fn new() -> (r: Engine)
        ensures
            r.active is None,
            r.managed_state == ServerState::Idle,
            r.managed_error is None,
            r.unmanaged_state is None,
            r.unmanaged_error is None,
    {
        Engine {
            active: None,
            managed_state: ServerState::Idle,
            managed_error: None,
            unmanaged_state: None,
            unmanaged_error: None,
        }
    }

    /// The endpoint of the active backend.
    pub fn endpoint(&self, settings: &LoSettings, env: &EndpointEnv) -> (r: BackendEndpoint)
        ensures
            r.kind == backend_kind_spec(settings.backend, env_set(env.llm_url), env.is_apple_silicon),
            endpoint_view(r) == endpoint_spec(*settings, *env, r.kind),
    {
        resolve_endpoint(settings, env)
    }

    /// The managed server to stop, if one is active (the unmanaged backends are
    /// not ours to stop).
    pub fn stop(&self) -> (r: Option<BackendKind>)
        ensures
            r == self.active,
    {
        self.active
    }

    /// Switch the managed server to `kind` (MLX or llama.cpp). A kind change
    /// replaces the active server, which starts out idle.
    pub fn managed_for(&mut self, kind: BackendKind) -> (r: ManagedChange)
        requires
            kind == BackendKind::Mlx || kind == BackendKind::Llama,
        ensures
            final(self).active == Some(kind),
            final(self).unmanaged_state == old(self).unmanaged_state,
            opt_seq(final(self).unmanaged_error) == opt_seq(old(self).unmanaged_error),
            old(self).active == Some(kind) ==> {
                &&& r == ManagedChange::Reuse
                &&& final(self).managed_state == old(self).managed_state
                &&& opt_seq(final(self).managed_error) == opt_seq(old(self).managed_error)
            },
            old(self).active != Some(kind) ==> {
                &&& r == ManagedChange::Start { stop_previous: old(self).active is Some }
                &&& final(self).managed_state == ServerState::Idle
                &&& final(self).managed_error is None
            },
    {
        match self.active {
            Some(k) => if k == kind {
                return ManagedChange::Reuse;
            },
            None => {},
        }
        let stop_previous = self.active.is_some();
        self.active = Some(kind);
        self.managed_state = ServerState::Idle;
        self.managed_error = None;
        ManagedChange::Start { stop_previous }
    }

    /// Record what the active managed server reports.
    pub fn report_managed(&mut self, state: ServerState, err: Option<String>)
        ensures
            final(self).active == old(self).active,
            final(self).managed_state == state,
            opt_seq(final(self).managed_error) == opt_seq(err),
            final(self).unmanaged_state == old(self).unmanaged_state,
            opt_seq(final(self).unmanaged_error) == opt_seq(old(self).unmanaged_error),
    {
        self.managed_state = state;
        self.managed_error = err;
    }

    /// Record the health of the unmanaged backends.
    pub fn set_unmanaged(&mut self, state: ServerState, err: Option<String>)
        ensures
            final(self).active == old(self).active,
            final(self).managed_state == old(self).managed_state,
            opt_seq(final(self).managed_error) == opt_seq(old(self).managed_error),
            final(self).unmanaged_state == Some(state),
            opt_seq(final(self).unmanaged_error) == opt_seq(err),
    {
        self.unmanaged_state = Some(state);
        self.unmanaged_error = err;
    }

    /// The current `(state, last_error)` for the resolved kind.
    pub fn current_state(&self, kind: BackendKind) -> (r: (ServerState, Option<String>))
        ensures
            (r.0, opt_seq(r.1)) == self.state_of(kind),
    {
        match kind {
            BackendKind::Mlx | BackendKind::Llama => {
                match self.active {
                    Some(k) => if k == kind {
                        let e = match &self.managed_error {
                            Some(e) => Some(e.clone()),
                            None => None,
                        };
                        return (self.managed_state, e);
                    },
                    None => {},
                }
                (ServerState::Idle, None)
            },
            _ => {
                let s = match self.unmanaged_state {
                    Some(s) => s,
                    None => ServerState::Idle,
                };
                let e = match &self.unmanaged_error {
                    Some(e) => Some(e.clone()),
                    None => None,
                };
                (s, e)
            },
        }
    }

    /// A health snapshot for the HUD, folding only the brain.
    pub fn status(&self, settings: &LoSettings, env: &EndpointEnv) -> (r: LocalStatus)
        ensures
            ({
                let kind = backend_kind_spec(settings.backend, env_set(env.llm_url), env.is_apple_silicon);
                let st = self.state_of(kind);
                status_view(r) == status_spec(st.0, st.1, kind, endpoint_spec(*settings, *env, kind).1)
            }),
    {
        let endpoint = resolve_endpoint(settings, env);
        let model = endpoint.model_id;
        let kind = endpoint.kind;
        let (state, last_error) = self.current_state(kind);
        match state {
            ServerState::Ready => LocalStatus { engine_up: true, loading: false, backend: Some(kind), model, detail: None },
            ServerState::Error => LocalStatus { engine_up: false, loading: false, backend: None, model, detail: last_error },
            _ => LocalStatus {
                engine_up: false,
                loading: true,
                backend: None,
                model,
                detail: Some(String::from_str("Loading model\u{2026}")),
            },
        }
    }

    /// Begin probing an Ollama engine at `base_url` (which ends in `/v1`):
    /// mark it loading and return the URL of its health probe.
    pub fn start_ollama_check(&mut self, base_url: &str) -> (url: String)
        ensures
            url@ == ollama_base(base_url@) + "/api/tags"@,
            final(self).unmanaged_state == Some(ServerState::Loading),
            final(self).unmanaged_error is None,
            final(self).active == old(self).active,
            final(self).managed_state == old(self).managed_state,
            opt_seq(final(self).managed_error) == opt_seq(old(self).managed_error),
    {
        self.set_unmanaged(ServerState::Loading, None);
        let mut url = strip_v1(base_url);
        url.append("/api/tags");
        url
    }

    /// Record the outcome of the Ollama probe: `status` is the HTTP status of
    /// the reply, `None` when none came. Any 2xx is ready; anything else is an
    /// error, returned as the message the user sees.
    pub fn on_ollama_health(&mut self, base_url: &str, status: Option<u16>) -> (r: Result<(), String>)
        ensures
            final(self).active == old(self).active,
            final(self).managed_state == old(self).managed_state,
            opt_seq(final(self).managed_error) == opt_seq(old(self).managed_error),
            (match status {
                Some(c) => 200 <= c < 300,
                None => false,
            }) ==> r is Ok && final(self).unmanaged_state == Some(ServerState::Ready) && final(self).unmanaged_error is None,
            !(match status {
                Some(c) => 200 <= c < 300,
                None => false,
            }) ==> (r matches Err(m) && m@ == ollama_unreachable(ollama_base(base_url@))
                && final(self).unmanaged_state == Some(ServerState::Error)
                && opt_seq(final(self).unmanaged_error) == Some(m@)),
    {
        let ok = match status {
            Some(c) => 200 <= c && c < 300,
            None => false,
        };
        if ok {
            self.set_unmanaged(ServerState::Ready, None);
            Ok(())
        } else {
            let base = strip_v1(base_url);
            let mut msg = String::from_str("Ollama is not reachable at ");
            msg.append(base.as_str());
            msg.append(". Start it with `ollama serve` and pull a tool-capable model.");
            self.set_unmanaged(ServerState::Error, Some(msg.clone()));
            Err(msg)
        }
    }

    /// Begin probing a custom endpoint at `base_url`: an empty URL is an error
    /// (returned as the message); otherwise mark it loading and return the URL
    /// of its `/models` probe.
    pub fn start_custom_check(&mut self, base_url: &str) -> (r: Result<String, String>)
        ensures
            final(self).active == old(self).active,
            final(self).managed_state == old(self).managed_state,
            opt_seq(final(self).managed_error) == opt_seq(old(self).managed_error),
            base_url@.len() == 0 ==> (r matches Err(m) && m@ == NO_CUSTOM_ENDPOINT@
                && final(self).unmanaged_state == Some(ServerState::Error)
                && opt_seq(final(self).unmanaged_error) == Some(m@)),
            base_url@.len() > 0 ==> (r matches Ok(u) && u@ == base_url@ + "/models"@
                && final(self).unmanaged_state == Some(ServerState::Loading)
                && final(self).unmanaged_error is None),
    {
        if base_url.is_empty() {
            let msg = String::from_str(NO_CUSTOM_ENDPOINT);
            self.set_unmanaged(ServerState::Error, Some(msg.clone()));
            return Err(msg);
        }
        self.set_unmanaged(ServerState::Loading, None);
        let mut url = String::from_str(base_url);
        url.append("/models");
        Ok(url)
    }

    /// Record the outcome of the custom-endpoint probe: any HTTP reply (some
    /// servers 404 `/models` but still serve completions) means ready; a failed
    /// request is an error, returned as the message the user sees.
    pub fn on_custom_health(&mut self, base_url: &str, reply: Result<u16, String>) -> (r: Result<(), String>)
        ensures
            final(self).active == old(self).active,
            final(self).managed_state == old(self).managed_state,
            opt_seq(final(self).managed_error) == opt_seq(old(self).managed_error),
            reply is Ok ==> r is Ok && final(self).unmanaged_state == Some(ServerState::Ready) && final(self).unmanaged_error is None,
            reply matches Err(e) ==> (r matches Err(m) && m@ == "Custom endpoint unreachable at "@ + base_url@ + ": "@ + e@
                && final(self).unmanaged_state == Some(ServerState::Error)
                && opt_seq(final(self).unmanaged_error) == Some(m@)),
    {
        match reply {
            Ok(_) => {
                self.set_unmanaged(ServerState::Ready, None);
                Ok(())
            },
            Err(e) => {
                let mut msg = String::from_str("Custom endpoint unreachable at ");
                msg.append(base_url);
                msg.append(": ");
                msg.append(e.as_str());
                self.set_unmanaged(ServerState::Error, Some(msg.clone()));
                Err(msg)
            },
        }
    }
}

/// The message for a custom backend without an endpoint.
pub const NO_CUSTOM_ENDPOINT: &'static str = "No custom LLM endpoint configured. Set LO_LLM_URL or the endpoint in Settings.";

/// The bare Ollama base: exactly one trailing `/v1` stripped.
pub open spec fn ollama_base(base_url: Seq<char>) -> Seq<char> {
    if ends_with(base_url, "/v1"@) {
        base_url.take(base_url.len() - 3)
    } else {
        base_url
    }
}

/// What the user is told when Ollama does not answer at `base`.
pub open spec fn ollama_unreachable(base: Seq<char>) -> Seq<char> {
    "Ollama is not reachable at "@ + base + ". Start it with `ollama serve` and pull a tool-capable model."@
}

/// Strip exactly one trailing `/v1`.
fn strip_v1(base_url: &str) -> (r: String)
    ensures
        r@ == ollama_base(base_url@),
{
    proof {
        reveal_strlit("/v1");
    }
    if ends_with_str(base_url, "/v1") {
        let v = crate::chars::chars_of(base_url);
        let r = crate::chars::string_from(&v, 0, v.len() - 3);
        assert(v@.subrange(0, v.len() - 3) == base_url@.take(base_url@.len() - 3));
        r
    } else {
        String::from_str(base_url)
    }
}

/// An environment override: the trimmed value, absent when unset or blank.
pub open spec fn env_trimmed_spec(v: Option<String>) -> Option<Seq<char>> {
    match v {
        Some(s) => if trim(s@).len() > 0 {
            Some(trim(s@))
        } else {
            None
        },
        None => None,
    }
}

/// The trimmed value of an environment override, absent when unset or blank.
pub fn env_trimmed(v: &Option<String>) -> (r: Option<String>)
    ensures
        opt_seq(r) == env_trimmed_spec(*v),
{
    match v {
        Some(s) => {
            let t = trimmed(s.as_str());
            if t.as_str().is_empty() {
                None
            } else {
                Some(t)
            }
        },
        None => None,
    }
}

/// The llama-server context size: the `LO_LLAMA_CTX` override parsed as a
/// non-zero `u32`, else 8192.
pub open spec fn llama_ctx_spec(v: Option<String>) -> u32 {
    match env_trimmed_spec(v) {
        Some(t) => match parse_u32_spec(t) {
            Some(c) if c != 0 => c,
            _ => 8192,
        },
        None => 8192,
    }
}

/// The llama-server context size for the `LO_LLAMA_CTX` override `v`.
pub fn llama_ctx(v: &Option<String>) -> (r: u32)
    ensures
        r == llama_ctx_spec(*v),
{
    match env_trimmed(v) {
        Some(t) => match parse_u32(t.as_str()) {
            Some(c) => if c != 0 {
                c
            } else {
                8192
            },
            None => 8192,
        },
        None => 8192,
    }
}

/// A command that starts a managed server, with the URL of its health probe.
#[derive(Debug, Clone)]
pub struct ServerCommand {
    pub program: String,
    pub args: Vec<String>,
    /// Extra environment variables, `(key, value)`.
    pub envs: Vec<(String, String)>,
    /// `/health` answers 200 once the model is loaded.
    pub health_url: String,
}

/// The views of a list of environment variables.
pub open spec fn env_pairs(v: Seq<(String, String)>) -> Seq<(Seq<char>, Seq<char>)> {
    v.map_values(|p: (String, String)| (p.0@, p.1@))
}

/// `http://127.0.0.1:{port}/health`.
pub open spec fn health_url_spec(port: u16) -> Seq<char> {
    "http://"@ + HOST@ + ":"@ + decimal(port as nat) + "/health"@
}

fn health_url(port: u16) -> (r: String)
    ensures
        r@ == health_url_spec(port),
{
    let mut s = String::from_str("http://");
    s.append(HOST);
    s.append(":");
    push_decimal(&mut s, port as u64);
    s.append("/health");
    s
}

fn decimal_string(n: u64) -> (r: String)
    ensures
        r@ == decimal(n as nat),
{
    let mut s = String::new();
    push_decimal(&mut s, n);
    s
}

/// The MLX server arguments: `-m mlx_lm server --model <id> --host 127.0.0.1
/// --port <port> --trust-remote-code`.
pub open spec fn mlx_args(model: Seq<char>, port: u16) -> Seq<Seq<char>> {
    seq![
        "-m"@,
        "mlx_lm"@,
        "server"@,
        "--model"@,
        model,
        "--host"@,
        HOST@,
        "--port"@,
        decimal(port as nat),
        "--trust-remote-code"@,
    ]
}

/// The Apple-Silicon fast path: `python -m mlx_lm server` for `model` on
/// `port`, with unbuffered Python output.
pub fn mlx_server_command(python: &str, model: &str, port: u16) -> (r: ServerCommand)
    ensures
        r.program@ == python@,
        strings(r.args@) == mlx_args(model@, port),
        env_pairs(r.envs@) == seq![("PYTHONUNBUFFERED"@, "1"@)],
        r.health_url@ == health_url_spec(port),
{
    let mut args: Vec<String> = Vec::new();
    args.push(String::from_str("-m"));
    args.push(String::from_str("mlx_lm"));
    args.push(String::from_str("server"));
    args.push(String::from_str("--model"));
    args.push(String::from_str(model));
    args.push(String::from_str("--host"));
    args.push(String::from_str(HOST));
    args.push(String::from_str("--port"));
    args.push(decimal_string(port as u64));
    args.push(String::from_str("--trust-remote-code"));
    let mut envs: Vec<(String, String)> = Vec::new();
    envs.push((String::from_str("PYTHONUNBUFFERED"), String::from_str("1")));
    assert(strings(args@) == mlx_args(model@, port));
    assert(env_pairs(envs@) == seq![("PYTHONUNBUFFERED"@, "1"@)]);
    ServerCommand { program: String::from_str(python), args, envs, health_url: health_url(port) }
}

/// The llama-server arguments: a tuned, deliberately fixed set.
pub open spec fn llama_args(model_path: Seq<char>, port: u16, ctx: u32) -> Seq<Seq<char>> {
    seq![
        "--model"@,
        model_path,
        "--host"@,
        HOST@,
        "--port"@,
        decimal(port as nat),
        "--jinja"@,
        "-fa"@,
        "--no-webui"@,
        "-ngl"@,
        "999"@,
        "-c"@,
        decimal(ctx as nat),
    ]
}

/// The universal cross-platform engine: `llama-server` on `model_path`, port
/// `port`, context `ctx`, all layers offloaded.
pub fn llama_server_command(bin: &str, model_path: &str, port: u16, ctx: u32) -> (r: ServerCommand)
    ensures
        r.program@ == bin@,
        strings(r.args@) == llama_args(model_path@, port, ctx),
        r.envs@.len() == 0,
        r.health_url@ == health_url_spec(port),
{
    let mut args: Vec<String> = Vec::new();
    args.push(String::from_str("--model"));
    args.push(String::from_str(model_path));
    args.push(String::from_str("--host"));
    args.push(String::from_str(HOST));
    args.push(String::from_str("--port"));
    args.push(decimal_string(port as u64));
    args.push(String::from_str("--jinja"));
    args.push(String::from_str("-fa"));
    args.push(String::from_str("--no-webui"));
    args.push(String::from_str("-ngl"));
    args.push(String::from_str("999"));
    args.push(String::from_str("-c"));
    args.push(decimal_string(ctx as u64));
    assert(strings(args@) == llama_args(model_path@, port, ctx));
    ServerCommand { program: String::from_str(bin), args, envs: Vec::new(), health_url: health_url(port) }
}

/// The Python interpreter for the MLX server: the `LO_PYTHON` override, else
/// the `LO_GEMMA_AUDIO_PYTHON` alias, else the project-local venv when it
/// exists, else `python3`.
pub open spec fn python_spec(python: Option<String>, alias: Option<String>, venv_exists: bool) -> Seq<char> {
    match env_trimmed_spec(python) {
        Some(p) => p,
        None => match env_trimmed_spec(alias) {
            Some(p) => p,
            None => if venv_exists {
                VENV_PYTHON@
            } else {
                "python3"@
            },
        },
    }
}

/// The project-local virtual environment's interpreter.
pub const VENV_PYTHON: &'static str = ".venv-gemma-audio/bin/python";

/// Resolve the Python interpreter for the MLX server.
pub fn python_command(python: &Option<String>, alias: &Option<String>, venv_exists: bool) -> (r: String)
    ensures
        r@ == python_spec(*python, *alias, venv_exists),
{
    match env_trimmed(python) {
        Some(p) => p,
        None => match env_trimmed(alias) {
            Some(p) => p,
            None => if venv_exists {
                String::from_str(VENV_PYTHON)
            } else {
                String::from_str("python3")
            },
        },
    }
}

/// The llama-server binary: the `LO_LLAMA_BIN` override, else the managed copy
/// under the cache dir (`engine/llama/llama-server`, `.exe` on Windows).
pub open spec fn llama_bin_spec(explicit: Option<String>, cache: Seq<char>, windows: bool) -> Seq<char> {
    match env_trimmed_spec(explicit) {
        Some(p) => p,
        None => path_join(
            path_join(path_join(cache, "engine"@), "llama"@),
            if windows {
                "llama-server.exe"@
            } else {
                "llama-server"@
            },
        ),
    }
}

/// Path to the llama-server binary.
pub fn llama_bin_path(explicit: &Option<String>, cache: &str, windows: bool) -> (r: String)
    ensures
        r@ == llama_bin_spec(*explicit, cache@, windows),
{
    match env_trimmed(explicit) {
        Some(p) => p,
        None => {
            let a = join_path(cache, "engine");
            let b = join_path(a.as_str(), "llama");
            let exe = if windows {
                "llama-server.exe"
            } else {
                "llama-server"
            };
            join_path(b.as_str(), exe)
        },
    }
}

/// The GGUF weights: the `LO_LLAMA_MODEL` override, else the managed download
/// under the cache dir (`models/<gguf file of the model>`).
pub open spec fn llama_model_spec(explicit: Option<String>, cache: Seq<char>, model: Seq<char>) -> Seq<char> {
    match env_trimmed_spec(explicit) {
        Some(p) => p,
        None => path_join(path_join(cache, "models"@), gguf_file_spec(model)),
    }
}

/// Path to the GGUF weights of `model`.
pub fn llama_model_path(explicit: &Option<String>, cache: &str, model: &str) -> (r: String)
    ensures
        r@ == llama_model_spec(*explicit, cache@, model@),
{
    match env_trimmed(explicit) {
        Some(p) => p,
        None => {
            let a = join_path(cache, "models");
            let f = gguf_file_for(model);
            join_path(a.as_str(), f.as_str())
        },
    }
}

/// Whether an asset must be fetched before the server starts: always, unless
/// an override names a file that exists.
pub fn needs_download(override_set: bool, exists: bool) -> (r: bool)
    ensures
        r == (!override_set || !exists),
{
    !override_set || !exists
}

/// The HUD status is consistent: an engine is never shown both up and loading;
/// it names a backend exactly when it is up, and then the backend that serves
/// the brain and no detail; the model is always the brain's resolved model. An
/// engine with nothing started and nothing probed shows as loading.
pub proof fn lemma_status_consistent(e: Engine, settings: LoSettings, env: EndpointEnv)
    ensures
        ({
            let kind = backend_kind_spec(settings.backend, env_set(env.llm_url), env.is_apple_silicon);
            let st = e.state_of(kind);
            let s = status_spec(st.0, st.1, kind, endpoint_spec(settings, env, kind).1);
            &&& !(s.0 && s.1)
            &&& s.0 <==> s.2 is Some
            &&& s.0 ==> s.2 == Some(kind) && s.4 is None
            &&& s.3 == endpoint_spec(settings, env, kind).1
            &&& (e.active is None && e.unmanaged_state is None) ==> (!s.0 && s.1 && s.4 == Some("Loading model\u{2026}"@))
        }),
{
}

} // verus!
