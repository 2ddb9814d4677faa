//! The tool registry and its safety gate. Every advertised tool carries a
//! safety tier, and the safety check runs before a tool does: the model is never
//! trusted to police itself.
//!
//! - `Safe`: read-only or trivially reversible; runs immediately.
//! - `Confirm`: a visible, reversible side effect; refused unless power-user mode is on.
//! - `Danger`: destructive, irreversible, or arbitrary code; refused unless power-user mode is on.
use vstd::prelude::*;

use crate::chars::str_eq;

verus! {

/// The safety tier of a tool.
#[derive(Debug, Clone, Copy, PartialEq, Eq, Structural)]
pub enum Tier {
    Safe,
    Confirm,
    Danger,
}

/// The result of the safety gate.
#[derive(Debug, Clone, Copy, PartialEq, Eq, Structural)]
pub enum GateDecision {
    /// Run the tool.
    Allow,
    /// Refuse: a non-safe tool with power-user mode off.
    DenyNeedsPowerUser,
}

/// The canned refusal returned when a gated tool is called with power-user mode off.
pub const POWER_USER_REQUIRED: &'static str =
    "That action needs power-user mode, which is off. Enable powerUserMode in settings to allow it.";

/// One advertised tool: its safety tier, name, and description (its
/// parameters are listed by [`tool_params`]).
#[derive(Debug, Clone, Copy)]
pub struct ToolInfo {
    pub tier: Tier,
    pub name: &'static str,
    pub description: &'static str,
}

/// The registry, in advertised order: `(tier, name, description)`.
pub open spec fn tool_table() -> Seq<(Tier, Seq<char>, Seq<char>)> {
    seq![
        (Tier::Safe, "web_search"@, "Search the live web for current, factual, or time-sensitive information (news, weather, prices, scores, events, lookups). Use whenever you are not certain of the answer from memory."@),
        (Tier::Safe, "fetch_url"@, "Fetch a web page (or API URL) and return its readable text so you can answer about its contents. Public http/https only."@),
        (Tier::Safe, "get_datetime"@, "Get the current local date and time."@),
        (Tier::Safe, "system_info"@, "Read host telemetry: overview, cpu, memory, disk, battery, network, or all."@),
        (Tier::Safe, "open_app"@, "Open/launch an application on the computer by name (e.g. \"Spotify\", \"Safari\")."@),
        (Tier::Safe, "focus_app"@, "Bring an already-running application to the foreground by name."@),
        (Tier::Confirm, "quit_app"@, "Quit a running application by name."@),
        (Tier::Safe, "set_volume"@, "Set the system output volume to a percentage from 0 to 100."@),
        (Tier::Safe, "media_control"@, "Control media playback: play, pause, playpause, next, previous, or stop."@),
        (Tier::Safe, "set_timer"@, "Start a countdown timer; Lo announces when it completes."@),
        (Tier::Safe, "take_screenshot"@, "Capture a screenshot of the screen and save it to the Pictures folder."@),
        (Tier::Safe, "read_clipboard"@, "Read the current text contents of the system clipboard."@),
        (Tier::Safe, "write_clipboard"@, "Replace the system clipboard with the given text."@),
        (Tier::Safe, "read_file"@, "Read a text file (within the allowed folders) and return its contents."@),
        (Tier::Safe, "list_dir"@, "List the contents of a directory (within the allowed folders)."@),
        (Tier::Safe, "search_files"@, "Find files whose names contain a query, under a directory (within the allowed folders)."@),
        (Tier::Confirm, "open_path"@, "Open a file or folder in its default application / the file manager."@),
        (Tier::Danger, "write_file"@, "Create or overwrite a text file with the given contents (within the allowed folders)."@),
        (Tier::Danger, "move_path"@, "Move or rename a file or folder (within the allowed folders)."@),
        (Tier::Danger, "copy_file"@, "Copy a file to a new path (within the allowed folders)."@),
        (Tier::Danger, "delete_path"@, "Delete a file or folder (within the allowed folders)."@),
        (Tier::Danger, "run_command"@, "Run a shell command. Provide the executable and its arguments as separate values (never one string). Use for anything no other tool covers."@)
    ]
}

/// The view of a registry entry.
pub open spec fn info_view(t: ToolInfo) -> (Tier, Seq<char>, Seq<char>) {
    (t.tier, t.name@, t.description@)
}

/// The full advertised tool set.
pub fn tool_registry() -> (r: Vec<ToolInfo>)
    ensures
        r@.map_values(|t: ToolInfo| info_view(t)) == tool_table(),
{
    let r = vec![
        ToolInfo { tier: Tier::Safe, name: "web_search", description: "Search the live web for current, factual, or time-sensitive information (news, weather, prices, scores, events, lookups). Use whenever you are not certain of the answer from memory." },
        ToolInfo { tier: Tier::Safe, name: "fetch_url", description: "Fetch a web page (or API URL) and return its readable text so you can answer about its contents. Public http/https only." },
        ToolInfo { tier: Tier::Safe, name: "get_datetime", description: "Get the current local date and time." },
        ToolInfo { tier: Tier::Safe, name: "system_info", description: "Read host telemetry: overview, cpu, memory, disk, battery, network, or all." },
        ToolInfo { tier: Tier::Safe, name: "open_app", description: "Open/launch an application on the computer by name (e.g. \"Spotify\", \"Safari\")." },
        ToolInfo { tier: Tier::Safe, name: "focus_app", description: "Bring an already-running application to the foreground by name." },
        ToolInfo { tier: Tier::Confirm, name: "quit_app", description: "Quit a running application by name." },
        ToolInfo { tier: Tier::Safe, name: "set_volume", description: "Set the system output volume to a percentage from 0 to 100." },
        ToolInfo { tier: Tier::Safe, name: "media_control", description: "Control media playback: play, pause, playpause, next, previous, or stop." },
        ToolInfo { tier: Tier::Safe, name: "set_timer", description: "Start a countdown timer; Lo announces when it completes." },
        ToolInfo { tier: Tier::Safe, name: "take_screenshot", description: "Capture a screenshot of the screen and save it to the Pictures folder." },
        ToolInfo { tier: Tier::Safe, name: "read_clipboard", description: "Read the current text contents of the system clipboard." },
        ToolInfo { tier: Tier::Safe, name: "write_clipboard", description: "Replace the system clipboard with the given text." },
        ToolInfo { tier: Tier::Safe, name: "read_file", description: "Read a text file (within the allowed folders) and return its contents." },
        ToolInfo { tier: Tier::Safe, name: "list_dir", description: "List the contents of a directory (within the allowed folders)." },
        ToolInfo { tier: Tier::Safe, name: "search_files", description: "Find files whose names contain a query, under a directory (within the allowed folders)." },
        ToolInfo { tier: Tier::Confirm, name: "open_path", description: "Open a file or folder in its default application / the file manager." },
        ToolInfo { tier: Tier::Danger, name: "write_file", description: "Create or overwrite a text file with the given contents (within the allowed folders)." },
        ToolInfo { tier: Tier::Danger, name: "move_path", description: "Move or rename a file or folder (within the allowed folders)." },
        ToolInfo { tier: Tier::Danger, name: "copy_file", description: "Copy a file to a new path (within the allowed folders)." },
        ToolInfo { tier: Tier::Danger, name: "delete_path", description: "Delete a file or folder (within the allowed folders)." },
        ToolInfo { tier: Tier::Danger, name: "run_command", description: "Run a shell command. Provide the executable and its arguments as separate values (never one string). Use for anything no other tool covers." }
    ];
    assert(r@.map_values(|t: ToolInfo| info_view(t)) =~= tool_table());
    r
}

/// The names in `table[..n]`, joined by `", "`.
pub open spec fn names_joined(table: Seq<(Tier, Seq<char>, Seq<char>)>, n: int) -> Seq<char>
    decreases n,
{
    if n <= 0 {
        seq![]
    } else if n == 1 {
        table[0].1
    } else {
        names_joined(table, n - 1) + ", "@ + table[n - 1].1
    }
}

/// Compact comma-separated tool-name list for the persona prompt.
pub fn tool_names() -> (r: String)
    ensures
        r@ == names_joined(tool_table(), tool_table().len() as int),
{
    let reg = tool_registry();
    let ghost tv = reg@.map_values(|t: ToolInfo| info_view(t));
    let mut out = String::new();
    let mut i: usize = 0;
    while i < reg.len()
        invariant
            tv == reg@.map_values(|t: ToolInfo| info_view(t)),
            tv == tool_table(),
            i <= reg.len(),
            out@ == names_joined(tool_table(), i as int),
        decreases reg.len() - i,
    {
        if i > 0 {
            out.append(", ");
        }
        assert(tv[i as int].1 == reg@[i as int].name@);
        out.append(reg[i].name);
        i = i + 1;
    }
    out
}

/// The tier of the first entry of `table[i..]` named `name`; `Safe` when none is.
pub open spec fn tier_in(table: Seq<(Tier, Seq<char>, Seq<char>)>, name: Seq<char>, i: int) -> Tier
    decreases table.len() - i,
{
    if i < 0 || i >= table.len() {
        Tier::Safe
    } else if table[i].1 == name {
        table[i].0
    } else {
        tier_in(table, name, i + 1)
    }
}

/// The registered tier of a tool name (unknown names are `Safe`).
pub open spec fn tier_of(name: Seq<char>) -> Tier {
    tier_in(tool_table(), name, 0)
}

/// The tier for a tool name (unknown names are treated as `Safe`).
pub fn tier_for(name: &str) -> (r: Tier)
    ensures
        r == tier_of(name@),
{
    let reg = tool_registry();
    let ghost tv = reg@.map_values(|t: ToolInfo| info_view(t));
    let mut i: usize = 0;
    while i < reg.len()
        invariant
            tv == reg@.map_values(|t: ToolInfo| info_view(t)),
            tv == tool_table(),
            i <= reg.len(),
            tier_in(tv, name@, i as int) == tier_of(name@),
        decreases reg.len() - i,
    {
        assert(tv[i as int] == info_view(reg@[i as int]));
        if str_eq(reg[i].name, name) {
            return reg[i].tier;
        }
        i = i + 1;
    }
    Tier::Safe
}

/// The safety decision for a tool of tier `tier`.
pub open spec fn gate_spec(tier: Tier, power_user_mode: bool) -> GateDecision {
    if tier != Tier::Safe && !power_user_mode {
        GateDecision::DenyNeedsPowerUser
    } else {
        GateDecision::Allow
    }
}

/// The safety gate: confirm/danger tools run only when power-user mode is on.
pub fn gate(name: &str, power_user_mode: bool) -> (r: GateDecision)
    ensures
        r == gate_spec(tier_of(name@), power_user_mode),
        power_user_mode ==> r == GateDecision::Allow,
        r == GateDecision::DenyNeedsPowerUser <==> (tier_of(name@) != Tier::Safe && !power_user_mode),
{
    if tier_for(name) != Tier::Safe && !power_user_mode {
        GateDecision::DenyNeedsPowerUser
    } else {
        GateDecision::Allow
    }
}

/// A name that names no registered tool is `Safe`.
pub proof fn lemma_unknown_tool_is_safe(name: Seq<char>)
    requires
        forall|i: int| 0 <= i < tool_table().len() ==> (#[trigger] tool_table()[i]).1 != name,
    ensures
        tier_of(name) == Tier::Safe,
{
    let t = tool_table();
    assert forall|i: int| 0 <= i <= t.len() implies tier_in(t, name, i) == Tier::Safe by {
        lemma_tier_in_absent(t, name, i);
    }
}

proof fn lemma_tier_in_absent(t: Seq<(Tier, Seq<char>, Seq<char>)>, name: Seq<char>, i: int)
    requires
        0 <= i <= t.len(),
        forall|k: int| 0 <= k < t.len() ==> (#[trigger] t[k]).1 != name,
    ensures
        tier_in(t, name, i) == Tier::Safe,
    decreases t.len() - i,
{
    if i < t.len() {
        lemma_tier_in_absent(t, name, i + 1);
    }
}

/// With power-user mode on, every tool is allowed; with it off, exactly the
/// non-`Safe` tools are refused.
pub proof fn lemma_gate_modes(name: Seq<char>)
    ensures
        gate_spec(tier_of(name), true) == GateDecision::Allow,
        gate_spec(tier_of(name), false) == GateDecision::DenyNeedsPowerUser <==> tier_of(name) != Tier::Safe,
{
}


/// The JSON type of a tool parameter.
#[derive(Debug, Clone, Copy, PartialEq, Eq, Structural)]
pub enum ParamKind {
    /// A string.
    Text,
    /// A number.
    Number,
    /// A boolean.
    Flag,
    /// An array of strings.
    TextList,
}

/// One parameter of a tool's JSON schema.
#[derive(Debug, Clone, Copy)]
pub struct ParamInfo {
    pub kind: ParamKind,
    pub name: &'static str,
    pub description: &'static str,
    /// Whether the schema lists it as required.
    pub required: bool,
}

/// The view of a parameter: `(kind, name, description, required)`.
pub open spec fn param_view(p: ParamInfo) -> (ParamKind, Seq<char>, Seq<char>, bool) {
    (p.kind, p.name@, p.description@, p.required)
}

/// The parameters of the tool named `tool`, in schema order (none for a tool
/// that takes none, or an unknown one).
pub open spec fn params_table(tool: Seq<char>) -> Seq<(ParamKind, Seq<char>, Seq<char>, bool)> {
    if tool == "web_search"@ {
        seq![
            (ParamKind::Text, "query"@, "A focused natural-language search query."@, true),
        ]
    } else if tool == "fetch_url"@ {
        seq![
            (ParamKind::Text, "url"@, "The absolute http(s) URL to fetch."@, true),
        ]
    } else if tool == "system_info"@ {
        seq![
            (ParamKind::Text, "kind"@, "One of: overview, cpu, memory, disk, battery, network, all."@, false),
        ]
    } else if tool == "open_app"@ || tool == "focus_app"@ || tool == "quit_app"@ {
        seq![
            (ParamKind::Text, "name"@, "The application name."@, true),
        ]
    } else if tool == "set_volume"@ {
        seq![
            (ParamKind::Number, "percent"@, "0-100"@, true),
        ]
    } else if tool == "media_control"@ {
        seq![
            (ParamKind::Text, "action"@, "play | pause | playpause | next | previous | stop"@, true),
        ]
    } else if tool == "set_timer"@ {
        seq![
            (ParamKind::Number, "seconds"@, "Duration in seconds."@, true),
            (ParamKind::Text, "label"@, "Optional label, e.g. \"tea\"."@, false),
        ]
    } else if tool == "write_clipboard"@ {
        seq![
            (ParamKind::Text, "text"@, "The text to copy."@, true),
        ]
    } else if tool == "read_file"@ {
        seq![
            (ParamKind::Text, "path"@, "Absolute or ~ path to the file."@, true),
        ]
    } else if tool == "list_dir"@ {
        seq![
            (ParamKind::Text, "path"@, "Absolute or ~ path to the directory."@, true),
        ]
    } else if tool == "search_files"@ {
        seq![
            (ParamKind::Text, "path"@, "Directory to search under."@, true),
            (ParamKind::Text, "query"@, "Substring to match in file names."@, true),
        ]
    } else if tool == "open_path"@ || tool == "delete_path"@ {
        seq![
            (ParamKind::Text, "path"@, "Absolute or ~ path."@, true),
        ]
    } else if tool == "write_file"@ {
        seq![
            (ParamKind::Text, "path"@, "Absolute or ~ path."@, true),
            (ParamKind::Text, "content"@, "The file contents."@, true),
            (ParamKind::Flag, "overwrite"@, "Allow replacing an existing file."@, false),
        ]
    } else if tool == "move_path"@ {
        seq![
            (ParamKind::Text, "from"@, "Source path."@, true),
            (ParamKind::Text, "to"@, "Destination path."@, true),
        ]
    } else if tool == "copy_file"@ {
        seq![
            (ParamKind::Text, "from"@, "Source file path."@, true),
            (ParamKind::Text, "to"@, "Destination path."@, true),
        ]
    } else if tool == "run_command"@ {
        seq![
            (ParamKind::Text, "command"@, "The executable, e.g. \"git\"."@, true),
            (ParamKind::TextList, "args"@, "Arguments, e.g. [\"status\"]."@, false),
            (ParamKind::Text, "cwd"@, "Optional working directory (within the allowed folders)."@, false),
        ]
    } else {
        seq![]
    }
}

/// The names of the required parameters among `ps`, in order.
pub open spec fn required_names(ps: Seq<(ParamKind, Seq<char>, Seq<char>, bool)>) -> Seq<Seq<char>>
    decreases ps.len(),
{
    if ps.len() == 0 {
        seq![]
    } else if ps.last().3 {
        required_names(ps.drop_last()).push(ps.last().1)
    } else {
        required_names(ps.drop_last())
    }
}

/// The parameters of a tool's JSON schema, by tool name.
pub fn tool_params(tool: &str) -> (r: Vec<ParamInfo>)
    ensures
        r@.map_values(|p: ParamInfo| param_view(p)) == params_table(tool@),
{
    let r = if str_eq(tool, "web_search") {
        vec![
            ParamInfo { kind: ParamKind::Text, name: "query", description: "A focused natural-language search query.", required: true },
        ]
    } else if str_eq(tool, "fetch_url") {
        vec![
            ParamInfo { kind: ParamKind::Text, name: "url", description: "The absolute http(s) URL to fetch.", required: true },
        ]
    } else if str_eq(tool, "system_info") {
        vec![
            ParamInfo { kind: ParamKind::Text, name: "kind", description: "One of: overview, cpu, memory, disk, battery, network, all.", required: false },
        ]
    } else if str_eq(tool, "open_app") || str_eq(tool, "focus_app") || str_eq(tool, "quit_app") {
        vec![
            ParamInfo { kind: ParamKind::Text, name: "name", description: "The application name.", required: true },
        ]
    } else if str_eq(tool, "set_volume") {
        vec![
            ParamInfo { kind: ParamKind::Number, name: "percent", description: "0-100", required: true },
        ]
    } else if str_eq(tool, "media_control") {
        vec![
            ParamInfo { kind: ParamKind::Text, name: "action", description: "play | pause | playpause | next | previous | stop", required: true },
        ]
    } else if str_eq(tool, "set_timer") {
        vec![
            ParamInfo { kind: ParamKind::Number, name: "seconds", description: "Duration in seconds.", required: true  },
            ParamInfo { kind: ParamKind::Text, name: "label", description: "Optional label, e.g. \"tea\".", required: false },
        ]
    } else if str_eq(tool, "write_clipboard") {
        vec![
            ParamInfo { kind: ParamKind::Text, name: "text", description: "The text to copy.", required: true },
        ]
    } else if str_eq(tool, "read_file") {
        vec![
            ParamInfo { kind: ParamKind::Text, name: "path", description: "Absolute or ~ path to the file.", required: true },
        ]
    } else if str_eq(tool, "list_dir") {
        vec![
            ParamInfo { kind: ParamKind::Text, name: "path", description: "Absolute or ~ path to the directory.", required: true },
        ]
    } else if str_eq(tool, "search_files") {
        vec![
            ParamInfo { kind: ParamKind::Text, name: "path", description: "Directory to search under.", required: true  },
            ParamInfo { kind: ParamKind::Text, name: "query", description: "Substring to match in file names.", required: true },
        ]
    } else if str_eq(tool, "open_path") || str_eq(tool, "delete_path") {
        vec![
            ParamInfo { kind: ParamKind::Text, name: "path", description: "Absolute or ~ path.", required: true },
        ]
    } else if str_eq(tool, "write_file") {
        vec![
            ParamInfo { kind: ParamKind::Text, name: "path", description: "Absolute or ~ path.", required: true  },
            ParamInfo { kind: ParamKind::Text, name: "content", description: "The file contents.", required: true  },
            ParamInfo { kind: ParamKind::Flag, name: "overwrite", description: "Allow replacing an existing file.", required: false },
        ]
    } else if str_eq(tool, "move_path") {
        vec![
            ParamInfo { kind: ParamKind::Text, name: "from", description: "Source path.", required: true  },
            ParamInfo { kind: ParamKind::Text, name: "to", description: "Destination path.", required: true },
        ]
    } else if str_eq(tool, "copy_file") {
        vec![
            ParamInfo { kind: ParamKind::Text, name: "from", description: "Source file path.", required: true  },
            ParamInfo { kind: ParamKind::Text, name: "to", description: "Destination path.", required: true },
        ]
    } else if str_eq(tool, "run_command") {
        vec![
            ParamInfo { kind: ParamKind::Text, name: "command", description: "The executable, e.g. \"git\".", required: true  },
            ParamInfo { kind: ParamKind::TextList, name: "args", description: "Arguments, e.g. [\"status\"].", required: false  },
            ParamInfo { kind: ParamKind::Text, name: "cwd", description: "Optional working directory (within the allowed folders).", required: false },
        ]
    } else {
        Vec::new()
    };
    assert(r@.map_values(|p: ParamInfo| param_view(p)) =~= params_table(tool@));
    r
}

/// Every required parameter of a schema is one of its declared parameters.
pub proof fn lemma_required_params_declared(ps: Seq<(ParamKind, Seq<char>, Seq<char>, bool)>)
    ensures
        forall|i: int|
            0 <= i < required_names(ps).len() ==> exists|j: int|
                0 <= j < ps.len() && ps[j].3 && #[trigger] ps[j].1 == #[trigger] required_names(ps)[i],
    decreases ps.len(),
{
    if ps.len() > 0 {
        let q = ps.drop_last();
        lemma_required_params_declared(q);
        let rq = required_names(q);
        let r = required_names(ps);
        assert forall|i: int| 0 <= i < r.len() implies exists|j: int|
            0 <= j < ps.len() && ps[j].3 && #[trigger] ps[j].1 == #[trigger] r[i] by {
            if i < rq.len() {
                assert(r[i] == rq[i]);
                let j = choose|j: int| 0 <= j < q.len() && q[j].3 && #[trigger] q[j].1 == #[trigger] rq[i];
                assert(ps[j] == q[j]);
            } else {
                assert(r[i] == ps[ps.len() - 1].1);
            }
        }
    }
}

} // verus!
