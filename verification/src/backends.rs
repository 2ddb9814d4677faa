//! LLM backend selection and endpoint resolution: which engine serves (MLX,
//! llama.cpp, Ollama, or a custom OpenAI-compatible endpoint), with which
//! model, and where to reach it.
use vstd::prelude::*;

use crate::chars::{
    chars_of, contains, decimal, is_ws, lemma_trim, push_decimal, starts_with, string_from, str_eq, trim, trim_range, trimmed,
};
use crate::models::{fitting_index, gguf_ref_spec, lemma_recommended_tier_fits, recommend_tier_for_bytes, tier_table};
use crate::settings::{default_model, LoSettings};
use crate::types::{BackendChoice, BackendKind};

verus! {

/// Default loopback port of the MLX server.
pub const MLX_PORT: u16 = 8765;
/// Default loopback port of llama-server.
pub const LLAMA_PORT: u16 = 8770;
/// Default Ollama base URL.
pub const OLLAMA_URL: &'static str = "http://127.0.0.1:11434";
/// The loopback host managed servers bind to.
pub const HOST: &'static str = "127.0.0.1";
/// The literal `model` value that means "pick the best model for this machine".
pub const AUTO_MODEL: &'static str = "auto";
/// The model id shipped in the default settings; while the settings still
/// carry it, selection is automatic.
pub const DEFAULT_MODEL_SENTINEL: &'static str = "mlx-community/Qwen3-Coder-30B-A3B-Instruct-4bit-DWQ";

/// Where and how to reach the active OpenAI-compatible engine.
#[derive(Debug, Clone)]
pub struct BackendEndpoint {
    pub kind: BackendKind,
    /// Base URL ending in `/v1`, e.g. `http://127.0.0.1:8765/v1`.
    pub base_url: String,
    /// The exact model id requests must name.
    pub model_id: String,
    /// Bearer token, or `None` for unauthenticated local servers.
    pub api_key: Option<String>,
}

/// The process-environment overrides endpoint resolution honours, each the raw
/// value of its variable when set.
#[derive(Debug, Clone)]
pub struct EndpointEnv {
    /// `LO_LLM_URL`
    pub llm_url: Option<String>,
    /// `LO_LLM_KEY`
    pub llm_key: Option<String>,
    /// `LO_LLM_MODEL`
    pub llm_model: Option<String>,
    /// `LO_BRAIN_PORT`
    pub brain_port: Option<String>,
    /// `LO_ENGINE_MODEL`
    pub engine_model: Option<String>,
    /// `LO_LLAMA_PORT`
    pub llama_port: Option<String>,
    /// `LO_LLAMA_MODEL_ID`
    pub llama_model_id: Option<String>,
    /// `LO_OLLAMA_URL`
    pub ollama_url: Option<String>,
    /// `LO_OLLAMA_MODEL`
    pub ollama_model: Option<String>,
    /// `LO_OLLAMA_KEY`
    pub ollama_key: Option<String>,
    /// The host is Apple Silicon (macOS on aarch64).
    pub is_apple_silicon: bool,
}

/// Which concrete backend serves a choice.
pub open spec fn backend_kind_spec(choice: BackendChoice, has_custom_url: bool, is_apple_silicon: bool) -> BackendKind {
    if has_custom_url {
        BackendKind::Custom
    } else {
        match choice {
            BackendChoice::Auto => if is_apple_silicon {
                BackendKind::Mlx
            } else {
                BackendKind::Llama
            },
            BackendChoice::Mlx => BackendKind::Mlx,
            BackendChoice::Llama => BackendKind::Llama,
            BackendChoice::Ollama => BackendKind::Ollama,
            BackendChoice::Custom => BackendKind::Custom,
        }
    }
}

/// Which concrete backend should serve, given whether a custom URL is set in
/// the environment and whether the host is Apple Silicon: a custom URL or
/// choice forces `Custom`; `Auto` means MLX on Apple Silicon, else llama.cpp.
pub fn resolve_backend_kind_for(choice: BackendChoice, has_custom_url: bool, is_apple_silicon: bool) -> (r: BackendKind)
    ensures
        r == backend_kind_spec(choice, has_custom_url, is_apple_silicon),
{
    if has_custom_url || choice == BackendChoice::Custom {
        return BackendKind::Custom;
    }
    match choice {
        BackendChoice::Auto => {
            if is_apple_silicon {
                BackendKind::Mlx
            } else {
                BackendKind::Llama
            }
        },
        BackendChoice::Mlx => BackendKind::Mlx,
        BackendChoice::Llama => BackendKind::Llama,
        BackendChoice::Ollama => BackendKind::Ollama,
        BackendChoice::Custom => BackendKind::Custom,
    }
}

/// An environment value that is set and not blank.
pub open spec fn env_set(v: Option<String>) -> bool {
    v matches Some(s) && trim(s@).len() > 0
}

fn env_nonempty(v: &Option<String>) -> (r: bool)
    ensures
        r == env_set(*v),
{
    match v {
        Some(s) => !trimmed(s.as_str()).as_str().is_empty(),
        None => false,
    }
}

/// Which concrete backend serves the settings, given the environment.
pub fn resolve_backend_kind(settings: &LoSettings, env: &EndpointEnv) -> (r: BackendKind)
    ensures
        r == backend_kind_spec(settings.backend, env_set(env.llm_url), env.is_apple_silicon),
{
    resolve_backend_kind_for(settings.backend, env_nonempty(&env.llm_url), env.is_apple_silicon)
}

/// ASCII-case-insensitive character equality.
pub open spec fn ascii_lower(c: char) -> int {
    if 'A' <= c && c <= 'Z' {
        (c as u32) + 32
    } else {
        c as u32 as int
    }
}

/// `a` and `b` are equal ignoring ASCII case.
pub open spec fn eq_ignore_ascii_case(a: Seq<char>, b: Seq<char>) -> bool {
    a.len() == b.len() && forall|i: int| 0 <= i < a.len() ==> ascii_lower(#[trigger] a[i]) == ascii_lower(b[i])
}

fn lower_code(c: char) -> (r: u32)
    ensures
        r as int == ascii_lower(c),
{
    if 'A' <= c && c <= 'Z' {
        (c as u32) + 32
    } else {
        c as u32
    }
}

fn eq_ignore_case(a: &str, b: &str) -> (r: bool)
    ensures
        r == eq_ignore_ascii_case(a@, b@),
{
    let va = chars_of(a);
    let vb = chars_of(b);
    if va.len() != vb.len() {
        return false;
    }
    let mut i: usize = 0;
    while i < va.len()
        invariant
            va@ == a@,
            vb@ == b@,
            va.len() == vb.len(),
            i <= va.len(),
            forall|k: int| 0 <= k < i ==> ascii_lower(#[trigger] va@[k]) == ascii_lower(vb@[k]),
        decreases va.len() - i,
    {
        if lower_code(va[i]) != lower_code(vb[i]) {
            return false;
        }
        i = i + 1;
    }
    true
}

/// The model id used: an explicit, non-default setting verbatim (trimmed);
/// otherwise (blank, `auto` in any case, or the shipped default) the artifact of
/// the tier that fits the machine's RAM for the backend, except that a custom
/// endpoint keeps the setting.
pub open spec fn resolve_model_id_spec(settings_model: Seq<char>, kind: BackendKind, ram_bytes: nat) -> Seq<char> {
    let m = trim(settings_model);
    let automatic = m.len() == 0 || eq_ignore_ascii_case(m, "auto"@) || m == default_model();
    if !automatic {
        m
    } else {
        let t = tier_table()[fitting_index(tier_table(), ram_bytes, 0)];
        match kind {
            BackendKind::Mlx => t.2,
            BackendKind::Llama => t.3,
            BackendKind::Ollama => t.4,
            BackendKind::Custom => m,
        }
    }
}

/// Resolve the logical model id to actually use, applying the RAM ladder when
/// the user left the model on `auto` or the shipped default. `ram_bytes` is the
/// machine's total memory.
pub fn resolve_model_id(settings_model: &str, kind: BackendKind, ram_bytes: u64) -> (r: String)
    ensures
        r@ == resolve_model_id_spec(settings_model@, kind, ram_bytes as nat),
{
    let m = trimmed(settings_model);
    let automatic = m.as_str().is_empty() || eq_ignore_case(m.as_str(), AUTO_MODEL) || str_eq(m.as_str(), DEFAULT_MODEL_SENTINEL);
    if !automatic {
        return m;
    }
    let tier = recommend_tier_for_bytes(ram_bytes);
    match kind {
        BackendKind::Mlx => String::from_str(tier.mlx),
        BackendKind::Llama => String::from_str(tier.gguf),
        BackendKind::Ollama => String::from_str(tier.ollama),
        BackendKind::Custom => m,
    }
}

/// `s` without its trailing `/` characters.
pub open spec fn trim_trailing_slashes(s: Seq<char>) -> Seq<char>
    decreases s.len(),
{
    if s.len() > 0 && s.last() == '/' {
        trim_trailing_slashes(s.drop_last())
    } else {
        s
    }
}

/// Trim, then strip trailing slashes (the user supplies the full OpenAI base,
/// e.g. `http://host:1234/v1`).
pub fn normalize_base(url: &str) -> (r: String)
    ensures
        r@ == trim_trailing_slashes(trim(url@)),
{
    let v = chars_of(url);
    let (a, b) = trim_range(&v, 0, v.len());
    assert(v@.subrange(0, v@.len() as int) == v@);
    let mut e = b;
    assert(v@.subrange(a as int, e as int) == trim(url@));
    while e > a && v[e - 1] == '/'
        invariant
            a <= e <= b <= v.len(),
            trim_trailing_slashes(trim(url@)) == trim_trailing_slashes(v@.subrange(a as int, e as int)),
        decreases e,
    {
        assert(v@.subrange(a as int, e as int).drop_last() == v@.subrange(a as int, e - 1));
        e = e - 1;
    }
    string_from(&v, a, e)
}

/// An environment value, trimmed, when set and not blank; else `fallback`.
pub open spec fn env_or_spec(v: Option<String>, fallback: Seq<char>) -> Seq<char> {
    if env_set(v) {
        trim(v->0@)
    } else {
        fallback
    }
}

fn env_or(v: &Option<String>, fallback: &str) -> (r: String)
    ensures
        r@ == env_or_spec(*v, fallback@),
{
    match v {
        Some(s) => {
            let t = trimmed(s.as_str());
            if !t.as_str().is_empty() {
                return t;
            }
            String::from_str(fallback)
        },
        None => String::from_str(fallback),
    }
}

/// The value of an ASCII digit.
pub open spec fn digit_value(c: char) -> int {
    (c as u32) - 48
}

/// The number the ASCII digits `s` spell.
pub open spec fn digits_value(s: Seq<char>) -> int
    decreases s.len(),
{
    if s.len() == 0 {
        0
    } else {
        digits_value(s.drop_last()) * 10 + digit_value(s.last())
    }
}

/// All of `s` is ASCII digits.
pub open spec fn all_digits(s: Seq<char>) -> bool {
    forall|i: int| 0 <= i < s.len() ==> '0' <= #[trigger] s[i] && s[i] <= '9'
}

/// What `str::parse::<u16>` yields: an optional `+` followed by at least one
/// ASCII digit, with a value that fits in 16 bits.
pub open spec fn parse_u16_spec(s: Seq<char>) -> Option<u16> {
    let d = if s.len() > 0 && s[0] == '+' { s.skip(1) } else { s };
    if d.len() > 0 && all_digits(d) && digits_value(d) <= 65535 {
        Some(digits_value(d) as u16)
    } else {
        None
    }
}

pub(crate) proof fn lemma_digits_value_nonneg(s: Seq<char>)
    requires
        all_digits(s),
    ensures
        digits_value(s) >= 0,
    decreases s.len(),
{
    if s.len() > 0 {
        assert(all_digits(s.drop_last()));
        lemma_digits_value_nonneg(s.drop_last());
    }
}

/// Parse a 16-bit unsigned decimal (`str::parse::<u16>`).
pub fn parse_u16(s: &str) -> (r: Option<u16>)
    ensures
        r == parse_u16_spec(s@),
{
    let v = chars_of(s);
    let start: usize = if v.len() > 0 && v[0] == '+' { 1 } else { 0 };
    let ghost d = if s@.len() > 0 && s@[0] == '+' { s@.skip(1) } else { s@ };
    assert(d == v@.subrange(start as int, v@.len() as int));
    if start >= v.len() {
        return None;
    }
    let mut acc: u32 = 0;
    let mut i = start;
    while i < v.len()
        invariant
            start <= i <= v.len(),
            v@ == s@,
            d == (if s@.len() > 0 && s@[0] == '+' { s@.skip(1) } else { s@ }),
            d == v@.subrange(start as int, v@.len() as int),
            all_digits(v@.subrange(start as int, i as int)),
            acc as int == digits_value(v@.subrange(start as int, i as int)),
            acc <= 65535,
        decreases v.len() - i,
    {
        let c = v[i];
        assert(v@.subrange(start as int, i + 1).drop_last() == v@.subrange(start as int, i as int));
        if !('0' <= c && c <= '9') {
            assert(d[i - start] == c);
            assert(!all_digits(d));
            return None;
        }
        let dv = (c as u32) - 48;
        assert(digit_value(c) == dv);
        if acc > 6553 || (acc == 6553 && dv > 5) {
            proof {
                assert(all_digits(v@.subrange(start as int, i + 1)));
                assert(digits_value(v@.subrange(start as int, i + 1)) == acc * 10 + dv);
                assert(d.take(i + 1 - start) == v@.subrange(start as int, i + 1));
                lemma_digits_prefix_bound(d, i + 1 - start, 65535);
            }
            return None;
        }
        acc = acc * 10 + dv;
        i = i + 1;
    }
    assert(v@.subrange(start as int, v@.len() as int) == d);
    Some(acc as u16)
}

proof fn lemma_digits_prefix_bound(d: Seq<char>, n: int, limit: int)
    requires
        0 < n <= d.len(),
        limit >= 0,
        all_digits(d.take(n)),
        digits_value(d.take(n)) > limit,
    ensures
        !(all_digits(d) && digits_value(d) <= limit),
    decreases d.len() - n,
{
    if n < d.len() && all_digits(d) {
        assert(d.take(n + 1).drop_last() == d.take(n));
        assert(all_digits(d.take(n + 1)));
        lemma_digits_value_nonneg(d.take(n));
        lemma_digits_prefix_bound(d, n + 1, limit);
    } else if n == d.len() {
        assert(d.take(n) == d);
    }
}

/// What `str::parse::<u32>` yields: an optional `+` followed by at least one
/// ASCII digit, with a value that fits in 32 bits.
pub open spec fn parse_u32_spec(s: Seq<char>) -> Option<u32> {
    let d = if s.len() > 0 && s[0] == '+' { s.skip(1) } else { s };
    if d.len() > 0 && all_digits(d) && digits_value(d) <= 4294967295 {
        Some(digits_value(d) as u32)
    } else {
        None
    }
}

/// Parse a 32-bit unsigned decimal (`str::parse::<u32>`).
pub fn parse_u32(s: &str) -> (r: Option<u32>)
    ensures
        r == parse_u32_spec(s@),
{
    let v = chars_of(s);
    let start: usize = if v.len() > 0 && v[0] == '+' { 1 } else { 0 };
    let ghost d = if s@.len() > 0 && s@[0] == '+' { s@.skip(1) } else { s@ };
    assert(d == v@.subrange(start as int, v@.len() as int));
    if start >= v.len() {
        return None;
    }
    let mut acc: u64 = 0;
    let mut i = start;
    while i < v.len()
        invariant
            start <= i <= v.len(),
            v@ == s@,
            d == (if s@.len() > 0 && s@[0] == '+' { s@.skip(1) } else { s@ }),
            d == v@.subrange(start as int, v@.len() as int),
            all_digits(v@.subrange(start as int, i as int)),
            acc as int == digits_value(v@.subrange(start as int, i as int)),
            acc <= 4294967295,
        decreases v.len() - i,
    {
        let c = v[i];
        assert(v@.subrange(start as int, i + 1).drop_last() == v@.subrange(start as int, i as int));
        if !('0' <= c && c <= '9') {
            assert(d[i - start] == c);
            assert(!all_digits(d));
            return None;
        }
        let dv = (c as u64) - 48;
        assert(digit_value(c) == dv);
        if acc * 10 + dv > 4294967295 {
            proof {
                assert(all_digits(v@.subrange(start as int, i + 1)));
                assert(digits_value(v@.subrange(start as int, i + 1)) == acc * 10 + dv);
                assert(d.take(i + 1 - start) == v@.subrange(start as int, i + 1));
                lemma_digits_prefix_bound(d, i + 1 - start, 4294967295);
            }
            return None;
        }
        acc = acc * 10 + dv;
        i = i + 1;
    }
    assert(v@.subrange(start as int, v@.len() as int) == d);
    Some(acc as u32)
}

/// A port from the environment: the trimmed value parsed as a non-zero `u16`,
/// else `default`.
pub open spec fn port_spec(v: Option<String>, default: u16) -> u16 {
    match v {
        Some(s) => match parse_u16_spec(trim(s@)) {
            Some(p) if p != 0 => p,
            _ => default,
        },
        None => default,
    }
}

/// A port override from the environment: see [`port_spec`].
pub fn port(v: &Option<String>, default: u16) -> (r: u16)
    ensures
        r == port_spec(*v, default),
{
    match v {
        Some(s) => {
            let t = trimmed(s.as_str());
            match parse_u16(t.as_str()) {
                Some(p) => if p != 0 {
                    p
                } else {
                    default
                },
                None => default,
            }
        },
        None => default,
    }
}

/// `http://127.0.0.1:{port}/v1`.
pub open spec fn loopback_base(port: u16) -> Seq<char> {
    "http://"@ + "127.0.0.1"@ + ":"@ + decimal(port as nat) + "/v1"@
}

fn loopback_url(port: u16) -> (r: String)
    ensures
        r@ == loopback_base(port),
{
    let mut s = String::from_str("http://");
    s.append(HOST);
    s.append(":");
    push_decimal(&mut s, port as u64);
    s.append("/v1");
    s
}

/// The endpoint for a backend kind, given the settings and the environment.
pub open spec fn endpoint_spec(settings: LoSettings, env: EndpointEnv, kind: BackendKind) -> (Seq<char>, Seq<char>, Option<Seq<char>>) {
    match kind {
        BackendKind::Mlx => (loopback_base(port_spec(env.brain_port, MLX_PORT)), env_or_spec(env.engine_model, settings.model@), None),
        BackendKind::Llama => (loopback_base(port_spec(env.llama_port, LLAMA_PORT)), env_or_spec(env.llama_model_id, settings.model@), None),
        BackendKind::Ollama => (
            trim_trailing_slashes(trim(env_or_spec(env.ollama_url, "http://127.0.0.1:11434"@))) + "/v1"@,
            env_or_spec(env.ollama_model, settings.model@),
            Some(env_or_spec(env.ollama_key, "ollama"@)),
        ),
        BackendKind::Custom => {
            let url = if env_set(env.llm_url) { trim(env.llm_url->0@) } else { trim(settings.llm_url@) };
            let key = if env_set(env.llm_key) {
                Some(trim(env.llm_key->0@))
            } else if trim(settings.llm_key@).len() > 0 {
                Some(trim(settings.llm_key@))
            } else {
                None
            };
            (trim_trailing_slashes(trim(url)), env_or_spec(env.llm_model, settings.model@), key)
        },
    }
}

/// The view of an endpoint: `(base_url, model_id, api_key)`.
pub open spec fn endpoint_view(e: BackendEndpoint) -> (Seq<char>, Seq<char>, Option<Seq<char>>) {
    (e.base_url@, e.model_id@, match e.api_key {
        Some(k) => Some(k@),
        None => None,
    })
}

/// Resolve the endpoint for the active backend, honouring the `LO_*`
/// environment overrides.
pub fn resolve_endpoint(settings: &LoSettings, env: &EndpointEnv) -> (r: BackendEndpoint)
    ensures
        r.kind == backend_kind_spec(settings.backend, env_set(env.llm_url), env.is_apple_silicon),
        endpoint_view(r) == endpoint_spec(*settings, *env, r.kind),
{
    let kind = resolve_backend_kind(settings, env);
    match kind {
        BackendKind::Mlx => BackendEndpoint {
            kind,
            base_url: loopback_url(port(&env.brain_port, MLX_PORT)),
            model_id: env_or(&env.engine_model, settings.model.as_str()),
            api_key: None,
        },
        BackendKind::Llama => BackendEndpoint {
            kind,
            base_url: loopback_url(port(&env.llama_port, LLAMA_PORT)),
            model_id: env_or(&env.llama_model_id, settings.model.as_str()),
            api_key: None,
        },
        BackendKind::Ollama => {
            let raw = env_or(&env.ollama_url, OLLAMA_URL);
            let mut base = normalize_base(raw.as_str());
            base.append("/v1");
            BackendEndpoint {
                kind,
                base_url: base,
                model_id: env_or(&env.ollama_model, settings.model.as_str()),
                api_key: Some(env_or(&env.ollama_key, "ollama")),
            }
        },
        BackendKind::Custom => {
            let url = if env_nonempty(&env.llm_url) {
                match &env.llm_url {
                    Some(s) => trimmed(s.as_str()),
                    None => String::new(),
                }
            } else {
                trimmed(settings.llm_url.as_str())
            };
            let key = if env_nonempty(&env.llm_key) {
                match &env.llm_key {
                    Some(s) => Some(trimmed(s.as_str())),
                    None => None,
                }
            } else {
                let k = trimmed(settings.llm_key.as_str());
                if !k.as_str().is_empty() {
                    Some(k)
                } else {
                    None
                }
            };
            let r = BackendEndpoint {
                kind,
                base_url: normalize_base(url.as_str()),
                model_id: env_or(&env.llm_model, settings.model.as_str()),
                api_key: key,
            };
            r
        },
    }
}

/// A custom endpoint authenticates with the configured key: `LO_LLM_KEY`
/// (trimmed) when it is set, else the settings' key (trimmed) when that is not
/// blank, and with none only when neither is configured; a configured key is
/// never dropped. Choosing the custom backend with no `LO_LLM_URL` override
/// resolves to it, at the settings' URL. The local engines take no key, and
/// Ollama always gets one.
pub proof fn lemma_custom_endpoint_keeps_its_key(settings: LoSettings, env: EndpointEnv)
    ensures
        ({
            let key = endpoint_spec(settings, env, BackendKind::Custom).2;
            &&& (key is Some) <==> (env_set(env.llm_key) || trim(settings.llm_key@).len() > 0)
            &&& env_set(env.llm_key) ==> key == Some(trim(env.llm_key->0@))
            &&& !env_set(env.llm_key) && trim(settings.llm_key@).len() > 0 ==> key == Some(trim(settings.llm_key@))
        }),
        settings.backend == BackendChoice::Custom && !env_set(env.llm_url) ==> {
            &&& backend_kind_spec(settings.backend, env_set(env.llm_url), env.is_apple_silicon) == BackendKind::Custom
            &&& endpoint_spec(settings, env, BackendKind::Custom).0 == trim_trailing_slashes(trim(trim(settings.llm_url@)))
        },
        endpoint_spec(settings, env, BackendKind::Mlx).2 is None,
        endpoint_spec(settings, env, BackendKind::Llama).2 is None,
        endpoint_spec(settings, env, BackendKind::Ollama).2 is Some,
{
}

/// The model setting leaves the choice to the machine: blank, `auto` in any
/// case, or the shipped default.
pub open spec fn automatic_model(settings_model: Seq<char>) -> bool {
    let m = trim(settings_model);
    m.len() == 0 || eq_ignore_ascii_case(m, "auto"@) || m == default_model()
}

proof fn lemma_trim_keeps(s: Seq<char>)
    requires
        s.len() > 0,
        !is_ws(s[0]),
        !is_ws(s[s.len() - 1]),
    ensures
        trim(s) == s,
{
    let (a, b) = lemma_trim(s);
    if a > 0 {
        assert(is_ws(s[0]));
    }
    if b < s.len() {
        assert(is_ws(s[s.len() - 1]));
    }
    assert(s.subrange(0, s.len() as int) =~= s);
}

/// Each tier's GGUF reference names a `.gguf` file and is taken as it stands
/// when resolved again; each MLX weight is an `mlx-community/` id and names no
/// `.gguf` file.
proof fn lemma_tier_artifacts(i: int)
    requires
        0 <= i < tier_table().len(),
    ensures
        contains(tier_table()[i].3, ".gguf"@),
        gguf_ref_spec(tier_table()[i].3) == tier_table()[i].3,
        starts_with(tier_table()[i].2, "mlx-community/"@),
        !contains(tier_table()[i].2, ".gguf"@),
{
    reveal_strlit(".gguf");
    reveal_strlit("mlx-community/");
    reveal_strlit("unsloth/Qwen3-Coder-30B-A3B-Instruct-GGUF:Qwen3-Coder-30B-A3B-Instruct-UD-Q4_K_XL.gguf");
    reveal_strlit("unsloth/Qwen3-14B-GGUF:Qwen3-14B-UD-Q4_K_XL.gguf");
    reveal_strlit("unsloth/Qwen3-8B-GGUF:Qwen3-8B-UD-Q4_K_XL.gguf");
    reveal_strlit("unsloth/Qwen3-4B-Instruct-2507-GGUF:Qwen3-4B-Instruct-2507-UD-Q4_K_XL.gguf");
    reveal_strlit("mlx-community/Qwen3-Coder-30B-A3B-Instruct-4bit-DWQ");
    reveal_strlit("mlx-community/Qwen3-14B-4bit");
    reveal_strlit("mlx-community/Qwen3-8B-4bit");
    reveal_strlit("mlx-community/Qwen3-4B-4bit");
    let g = tier_table()[i].3;
    let x = tier_table()[i].2;
    let n = g.len() as int;
    assert(".gguf"@.len() == 5);
    assert(g.subrange(n - 5, n) =~= ".gguf"@);
    assert(g.subrange(n - 5, n - 5 + ".gguf"@.len()) == ".gguf"@);
    assert(contains(g, ".gguf"@));
    assert(!is_ws(g[0]) && !is_ws(g[n - 1]));
    lemma_trim_keeps(g);
    assert(x.take(14) =~= "mlx-community/"@);
    assert forall|k: int| 0 <= k && k + 5 <= x.len() implies #[trigger] x.subrange(k, k + 5) != ".gguf"@ by {
        if x.subrange(k, k + 5) == ".gguf"@ {
            assert(x.subrange(k, k + 5)[0] == '.');
            assert(x[k] == '.');
        }
    }
}

/// With the model left to the machine, llama.cpp gets a GGUF reference and MLX
/// gets an MLX weight, both of the tier recommended for the machine's RAM: the
/// llama.cpp id names a `.gguf` file and is resolved again to itself; the MLX
/// id is an `mlx-community/` weight and names none.
pub proof fn lemma_auto_model_fits_the_backend(settings_model: Seq<char>, ram_bytes: nat)
    requires
        automatic_model(settings_model),
    ensures
        ({
            let r = resolve_model_id_spec(settings_model, BackendKind::Llama, ram_bytes);
            &&& contains(r, ".gguf"@)
            &&& gguf_ref_spec(r) == r
            &&& r == tier_table()[fitting_index(tier_table(), ram_bytes, 0)].3
        }),
        ({
            let r = resolve_model_id_spec(settings_model, BackendKind::Mlx, ram_bytes);
            &&& starts_with(r, "mlx-community/"@)
            &&& !contains(r, ".gguf"@)
            &&& r == tier_table()[fitting_index(tier_table(), ram_bytes, 0)].2
        }),
{
    lemma_recommended_tier_fits(ram_bytes);
    lemma_tier_artifacts(fitting_index(tier_table(), ram_bytes, 0));
}

/// A model the user named explicitly is used as set (trimmed), whatever the
/// backend; only an automatic setting consults the RAM ladder.
pub proof fn lemma_explicit_model_is_kept(settings_model: Seq<char>, kind: BackendKind, ram_bytes: nat)
    requires
        !automatic_model(settings_model),
    ensures
        resolve_model_id_spec(settings_model, kind, ram_bytes) == trim(settings_model),
{
}

} // verus!
