//! The tool dispatcher's decisions: refuse malformed arguments, run the safety
//! check, pick the execution body and the arguments it gets, and phrase the
//! outcome (with what the audit log must record).
//!
//! The JSON arguments text is parsed by `serde_json`; running the bodies
//! (HTTP, processes, the clipboard, the filesystem) and writing the audit log
//! are the caller's.
use vstd::prelude::*;

use serde_json::Value;

use crate::audit::Decision;
use crate::chars::str_eq;
use crate::sandbox::strings;
use crate::tools::{gate, gate_spec, params_table, tier_for, tier_of, GateDecision, Tier, POWER_USER_REQUIRED};

verus! {

/// One argument value, as the dispatcher reads it.
#[derive(Debug, Clone)]
pub enum ArgValue {
    Null,
    Bool(bool),
    /// A JSON number, as its JSON text (`30`, `1.5`).
    Number(String),
    Str(String),
    /// A JSON array, each item a string or, for a non-string item, its JSON
    /// text (`null`, `true`, `3`, `{"a":1}`).
    Array(Vec<String>),
    Object,
}

/// The arguments of a tool call: the entries of the JSON object the model sent
/// (none when it sent something other than an object).
#[derive(Debug, Clone)]
pub struct ToolArgs {
    pub entries: Vec<(String, ArgValue)>,
}

/// The value under `key`: the first entry with that key.
pub open spec fn lookup(entries: Seq<(String, ArgValue)>, key: Seq<char>) -> Option<ArgValue>
    decreases entries.len(),
{
    if entries.len() == 0 {
        None
    } else if entries[0].0@ == key {
        Some(entries[0].1)
    } else {
        lookup(entries.skip(1), key)
    }
}

/// The string under `key`, or `""` when missing or not a string.
pub open spec fn str_arg_spec(args: Seq<(String, ArgValue)>, key: Seq<char>) -> Seq<char> {
    match lookup(args, key) {
        Some(ArgValue::Str(s)) => s@,
        _ => Seq::empty(),
    }
}

/// The string under `key`, or `default` when missing or not a string.
pub open spec fn str_or_spec(args: Seq<(String, ArgValue)>, key: Seq<char>, default: Seq<char>) -> Seq<char> {
    match lookup(args, key) {
        Some(ArgValue::Str(s)) => s@,
        _ => default,
    }
}

/// A present, non-empty string under `key`.
pub open spec fn opt_str_spec(args: Seq<(String, ArgValue)>, key: Seq<char>) -> Option<Seq<char>> {
    match lookup(args, key) {
        Some(ArgValue::Str(s)) => if s@.len() > 0 {
            Some(s@)
        } else {
            None
        },
        _ => None,
    }
}

/// The boolean under `key`, or `false`.
pub open spec fn bool_arg_spec(args: Seq<(String, ArgValue)>, key: Seq<char>) -> bool {
    match lookup(args, key) {
        Some(ArgValue::Bool(b)) => b,
        _ => false,
    }
}

/// The (stringified) array under `key`, or empty.
pub open spec fn array_arg_spec(args: Seq<(String, ArgValue)>, key: Seq<char>) -> Seq<Seq<char>> {
    match lookup(args, key) {
        Some(ArgValue::Array(v)) => strings(v@),
        _ => Seq::empty(),
    }
}

/// A numeric argument as the model sent it; the caller reads it as a number
/// (a string is trimmed first; anything else is not a number).
#[derive(Debug, Clone)]
pub enum NumArg {
    /// A JSON number, as its JSON text.
    Number(String),
    /// A string, to be parsed as a number.
    Text(String),
    /// Missing, or neither a number nor a string.
    Missing,
}

/// What [`NumArg`] the value under `key` is.
pub open spec fn num_arg_matches(args: Seq<(String, ArgValue)>, key: Seq<char>, n: NumArg) -> bool {
    match lookup(args, key) {
        Some(ArgValue::Number(t)) => n matches NumArg::Number(u) && u@ == t@,
        Some(ArgValue::Str(t)) => n matches NumArg::Text(u) && u@ == t@,
        _ => n is Missing,
    }
}

/// The execution body a tool call routes to, with its arguments.
#[derive(Debug, Clone)]
pub enum ToolAction {
    WebSearch { query: String },
    FetchUrl { url: String },
    GetDatetime,
    SystemInfo { kind: String },
    OpenApp { name: String },
    FocusApp { name: String },
    QuitApp { name: String },
    SetVolume { percent: NumArg },
    MediaControl { action: String },
    SetTimer { seconds: NumArg, label: Option<String> },
    TakeScreenshot,
    ReadClipboard,
    WriteClipboard { text: String },
    ReadFile { path: String },
    ListDir { path: String },
    SearchFiles { path: String, query: String },
    OpenPath { path: String },
    WriteFile { path: String, content: String, overwrite: bool },
    MovePath { from: String, to: String },
    CopyFile { from: String, to: String },
    DeletePath { path: String },
    RunCommand { command: String, args: Vec<String>, cwd: Option<String> },
    /// An unknown tool: answered with `reply` (a normal reply, not an error).
    Unknown { reply: String },
}

/// The view of an optional string.
pub open spec fn opt_view(o: Option<String>) -> Option<Seq<char>> {
    match o {
        Some(s) => Some(s@),
        None => None,
    }
}

/// `a` is the action the tool `name` routes to with arguments `args`.
pub open spec fn routes_to(name: Seq<char>, args: Seq<(String, ArgValue)>, a: ToolAction) -> bool {
    if name == "web_search"@ {
        a matches ToolAction::WebSearch { query } && query@ == str_arg_spec(args, "query"@)
    } else if name == "fetch_url"@ {
        a matches ToolAction::FetchUrl { url } && url@ == str_arg_spec(args, "url"@)
    } else if name == "get_datetime"@ {
        a is GetDatetime
    } else if name == "system_info"@ {
        a matches ToolAction::SystemInfo { kind } && kind@ == str_or_spec(args, "kind"@, "overview"@)
    } else if name == "open_app"@ {
        a matches ToolAction::OpenApp { name: n } && n@ == str_arg_spec(args, "name"@)
    } else if name == "focus_app"@ {
        a matches ToolAction::FocusApp { name: n } && n@ == str_arg_spec(args, "name"@)
    } else if name == "quit_app"@ {
        a matches ToolAction::QuitApp { name: n } && n@ == str_arg_spec(args, "name"@)
    } else if name == "set_volume"@ {
        a matches ToolAction::SetVolume { percent } && num_arg_matches(args, "percent"@, percent)
    } else if name == "media_control"@ {
        a matches ToolAction::MediaControl { action } && action@ == str_or_spec(args, "action"@, "playpause"@)
    } else if name == "set_timer"@ {
        a matches ToolAction::SetTimer { seconds, label } && num_arg_matches(args, "seconds"@, seconds) && opt_view(
            label,
        ) == opt_str_spec(args, "label"@)
    } else if name == "take_screenshot"@ {
        a is TakeScreenshot
    } else if name == "read_clipboard"@ {
        a is ReadClipboard
    } else if name == "write_clipboard"@ {
        a matches ToolAction::WriteClipboard { text } && text@ == str_arg_spec(args, "text"@)
    } else if name == "read_file"@ {
        a matches ToolAction::ReadFile { path } && path@ == str_arg_spec(args, "path"@)
    } else if name == "list_dir"@ {
        a matches ToolAction::ListDir { path } && path@ == str_arg_spec(args, "path"@)
    } else if name == "search_files"@ {
        a matches ToolAction::SearchFiles { path, query } && path@ == str_arg_spec(args, "path"@) && query@
            == str_arg_spec(args, "query"@)
    } else if name == "open_path"@ {
        a matches ToolAction::OpenPath { path } && path@ == str_arg_spec(args, "path"@)
    } else if name == "write_file"@ {
        a matches ToolAction::WriteFile { path, content, overwrite } && path@ == str_arg_spec(args, "path"@)
            && content@ == str_arg_spec(args, "content"@) && overwrite == bool_arg_spec(args, "overwrite"@)
    } else if name == "move_path"@ {
        a matches ToolAction::MovePath { from, to } && from@ == str_arg_spec(args, "from"@) && to@ == str_arg_spec(
            args,
            "to"@,
        )
    } else if name == "copy_file"@ {
        a matches ToolAction::CopyFile { from, to } && from@ == str_arg_spec(args, "from"@) && to@ == str_arg_spec(
            args,
            "to"@,
        )
    } else if name == "delete_path"@ {
        a matches ToolAction::DeletePath { path } && path@ == str_arg_spec(args, "path"@)
    } else if name == "run_command"@ {
        a matches ToolAction::RunCommand { command, args: argv, cwd } && command@ == str_arg_spec(args, "command"@)
            && strings(argv@) == array_arg_spec(args, "args"@) && opt_view(cwd) == opt_str_spec(args, "cwd"@)
    } else {
        a matches ToolAction::Unknown { reply } && reply@ == "Error: unknown tool \""@ + name + "\"."@
    }
}

/// The index of the first entry under `key`.
fn find(args: &ToolArgs, key: &str) -> (r: Option<usize>)
    ensures
        match r {
            Some(i) => i < args.entries@.len() && lookup(args.entries@, key@) == Some(args.entries@[i as int].1),
            None => lookup(args.entries@, key@) is None,
        },
{
    let ghost e = args.entries@;
    assert(e.skip(0) == e);
    let mut i: usize = 0;
    while i < args.entries.len()
        invariant
            e == args.entries@,
            i <= e.len(),
            lookup(e, key@) == lookup(e.skip(i as int), key@),
        decreases e.len() - i,
    {
        let ghost rest = e.skip(i as int);
        assert(rest[0] == e[i as int]);
        if str_eq(args.entries[i].0.as_str(), key) {
            return Some(i);
        }
        assert(rest.skip(1) == e.skip(i + 1));
        i = i + 1;
    }
    None
}

fn str_arg(args: &ToolArgs, key: &str) -> (r: String)
    ensures
        r@ == str_arg_spec(args.entries@, key@),
{
    proof {
        reveal_strlit("");
    }
    str_or(args, key, "")
}

fn str_or(args: &ToolArgs, key: &str, default: &str) -> (r: String)
    ensures
        r@ == str_or_spec(args.entries@, key@, default@),
{
    proof {
        reveal_strlit("");
    }
    match find(args, key) {
        Some(i) => match &args.entries[i].1 {
            ArgValue::Str(s) => s.clone(),
            _ => String::from_str(default),
        },
        None => String::from_str(default),
    }
}

fn opt_str_arg(args: &ToolArgs, key: &str) -> (r: Option<String>)
    ensures
        opt_view(r) == opt_str_spec(args.entries@, key@),
{
    match find(args, key) {
        Some(i) => match &args.entries[i].1 {
            ArgValue::Str(s) => if s.as_str().is_empty() {
                None
            } else {
                Some(s.clone())
            },
            _ => None,
        },
        None => None,
    }
}

fn bool_arg(args: &ToolArgs, key: &str) -> (r: bool)
    ensures
        r == bool_arg_spec(args.entries@, key@),
{
    match find(args, key) {
        Some(i) => match &args.entries[i].1 {
            ArgValue::Bool(b) => *b,
            _ => false,
        },
        None => false,
    }
}

fn copy_strings(v: &Vec<String>) -> (r: Vec<String>)
    ensures
        strings(r@) == strings(v@),
{
    let mut r: Vec<String> = Vec::new();
    let mut i: usize = 0;
    while i < v.len()
        invariant
            i <= v@.len(),
            strings(r@) == strings(v@).take(i as int),
        decreases v@.len() - i,
    {
        r.push(v[i].clone());
        assert(strings(v@).take(i + 1) == strings(v@).take(i as int).push(v@[i as int]@));
        i = i + 1;
    }
    assert(strings(v@).take(v@.len() as int) == strings(v@));
    r
}

fn array_arg(args: &ToolArgs, key: &str) -> (r: Vec<String>)
    ensures
        strings(r@) == array_arg_spec(args.entries@, key@),
{
    match find(args, key) {
        Some(i) => match &args.entries[i].1 {
            ArgValue::Array(v) => copy_strings(v),
            _ => Vec::new(),
        },
        None => Vec::new(),
    }
}

fn num_arg(args: &ToolArgs, key: &str) -> (r: NumArg)
    ensures
        num_arg_matches(args.entries@, key@, r),
{
    match find(args, key) {
        Some(i) => match &args.entries[i].1 {
            ArgValue::Number(t) => NumArg::Number(t.clone()),
            ArgValue::Str(t) => NumArg::Text(t.clone()),
            _ => NumArg::Missing,
        },
        None => NumArg::Missing,
    }
}

/// Route a tool call by name to its execution body, reading the arguments
/// that body takes (with their defaults).
pub fn route(name: &str, args: &ToolArgs) -> (r: ToolAction)
    ensures
        routes_to(name@, args.entries@, r),
{
    if str_eq(name, "web_search") {
        ToolAction::WebSearch { query: str_arg(args, "query") }
    } else if str_eq(name, "fetch_url") {
        ToolAction::FetchUrl { url: str_arg(args, "url") }
    } else if str_eq(name, "get_datetime") {
        ToolAction::GetDatetime
    } else if str_eq(name, "system_info") {
        ToolAction::SystemInfo { kind: str_or(args, "kind", "overview") }
    } else if str_eq(name, "open_app") {
        ToolAction::OpenApp { name: str_arg(args, "name") }
    } else if str_eq(name, "focus_app") {
        ToolAction::FocusApp { name: str_arg(args, "name") }
    } else if str_eq(name, "quit_app") {
        ToolAction::QuitApp { name: str_arg(args, "name") }
    } else if str_eq(name, "set_volume") {
        ToolAction::SetVolume { percent: num_arg(args, "percent") }
    } else if str_eq(name, "media_control") {
        ToolAction::MediaControl { action: str_or(args, "action", "playpause") }
    } else if str_eq(name, "set_timer") {
        ToolAction::SetTimer { seconds: num_arg(args, "seconds"), label: opt_str_arg(args, "label") }
    } else if str_eq(name, "take_screenshot") {
        ToolAction::TakeScreenshot
    } else if str_eq(name, "read_clipboard") {
        ToolAction::ReadClipboard
    } else if str_eq(name, "write_clipboard") {
        ToolAction::WriteClipboard { text: str_arg(args, "text") }
    } else if str_eq(name, "read_file") {
        ToolAction::ReadFile { path: str_arg(args, "path") }
    } else if str_eq(name, "list_dir") {
        ToolAction::ListDir { path: str_arg(args, "path") }
    } else if str_eq(name, "search_files") {
        ToolAction::SearchFiles { path: str_arg(args, "path"), query: str_arg(args, "query") }
    } else if str_eq(name, "open_path") {
        ToolAction::OpenPath { path: str_arg(args, "path") }
    } else if str_eq(name, "write_file") {
        ToolAction::WriteFile {
            path: str_arg(args, "path"),
            content: str_arg(args, "content"),
            overwrite: bool_arg(args, "overwrite"),
        }
    } else if str_eq(name, "move_path") {
        ToolAction::MovePath { from: str_arg(args, "from"), to: str_arg(args, "to") }
    } else if str_eq(name, "copy_file") {
        ToolAction::CopyFile { from: str_arg(args, "from"), to: str_arg(args, "to") }
    } else if str_eq(name, "delete_path") {
        ToolAction::DeletePath { path: str_arg(args, "path") }
    } else if str_eq(name, "run_command") {
        ToolAction::RunCommand {
            command: str_arg(args, "command"),
            args: array_arg(args, "args"),
            cwd: opt_str_arg(args, "cwd"),
        }
    } else {
        let mut reply = String::from_str("Error: unknown tool \"");
        reply.append(name);
        reply.append("\".");
        ToolAction::Unknown { reply }
    }
}

/// What to do with a tool call before anything runs.
#[derive(Debug, Clone)]
pub enum Prepared {
    /// The arguments are not JSON: answer `reply` (nothing runs, nothing is
    /// logged).
    Malformed { reply: String },
    /// The safety check refused: answer `reply` and log the call as denied.
    Denied { reply: String },
    /// Run `action`; when `audited`, log the outcome.
    Run { action: ToolAction, audited: bool },
}

/// The arguments a call carries: an empty arguments text is an empty object;
/// otherwise they are what the text parsed to (`None` when it is not JSON).
pub open spec fn call_args(args_json: Seq<char>, parsed: Option<ToolArgs>) -> Option<Seq<(String, ArgValue)>> {
    if args_json.len() == 0 {
        Some(Seq::empty())
    } else {
        match parsed {
            Some(a) => Some(a.entries@),
            None => None,
        }
    }
}

/// What `serde_json` makes of a non-empty arguments text: the entries of the
/// JSON object it holds (none for other JSON values), or `None` when it is not
/// JSON.
pub uninterp spec fn parsed_tool_args(args_json: Seq<char>) -> Option<ToolArgs>;

/// Parse a tool call's arguments text with `serde_json::from_str` into a JSON
/// value and convert it, one for one, into the library's arguments: each entry
/// of an object with its value's kind (a number as its JSON text, an array item
/// as its string or, for any other item, its JSON text); no entries for a JSON
/// value that is not an object; `None` when the text is not JSON. The contract
/// only names the result as a function of the text.
#[verifier::external_body]
pub fn parse_tool_args(args_json: &str) -> (r: Option<ToolArgs>)
    ensures
        r == parsed_tool_args(args_json@),
{
    let v: Value = serde_json::from_str(args_json).ok()?;
    let entries = match v {
        Value::Object(m) => m.into_iter().map(|(k, x)| (k, match x {
            Value::Null => ArgValue::Null,
            Value::Bool(b) => ArgValue::Bool(b),
            Value::Number(n) => ArgValue::Number(n.to_string()),
            Value::String(s) => ArgValue::Str(s),
            Value::Array(a) => ArgValue::Array(a.into_iter().map(|i| match i { Value::String(s) => s, o => o.to_string() }).collect()),
            Value::Object(_) => ArgValue::Object,
        })).collect(),
        _ => Vec::new(),
    };
    Some(ToolArgs { entries })
}

/// Prepare the tool call `name(args_json)`, where `parsed` is what the
/// arguments text parsed to (`None` when it is not JSON; not consulted for an
/// empty text, which means no arguments): refuse malformed arguments, run the
/// safety check, and route to the body. Only confirm/danger tools are audited.
pub fn prepare_parsed(name: &str, args_json: &str, parsed: Option<ToolArgs>, power_user_mode: bool) -> (r: Prepared)
    ensures
        call_args(args_json@, parsed) is None ==> (r matches Prepared::Malformed { reply }
            && reply@ == "Error: could not parse arguments for "@ + name@ + "."@),
        call_args(args_json@, parsed) is Some ==> {
            if gate_spec(tier_of(name@), power_user_mode) == GateDecision::DenyNeedsPowerUser {
                r matches Prepared::Denied { reply } && reply@ == POWER_USER_REQUIRED@
            } else {
                &&& r matches Prepared::Run { action, audited }
                &&& audited == (tier_of(name@) != Tier::Safe)
                &&& routes_to(name@, call_args(args_json@, parsed)->0, action)
            }
        },
{
    let args = if args_json.is_empty() {
        ToolArgs { entries: Vec::new() }
    } else {
        match parsed {
            Some(a) => a,
            None => {
                let mut reply = String::from_str("Error: could not parse arguments for ");
                reply.append(name);
                reply.append(".");
                return Prepared::Malformed { reply };
            },
        }
    };
    let tier = tier_for(name);
    match gate(name, power_user_mode) {
        GateDecision::DenyNeedsPowerUser => Prepared::Denied { reply: String::from_str(POWER_USER_REQUIRED) },
        GateDecision::Allow => {
            let action = route(name, &args);
            Prepared::Run { action, audited: tier != Tier::Safe }
        },
    }
}

/// Prepare the tool call `name(args_json)`: an empty arguments text means no
/// arguments; any other text is parsed as JSON (see [`prepare_parsed`] for
/// what follows).
pub fn prepare_call(name: &str, args_json: &str, power_user_mode: bool) -> (r: Prepared)
    ensures
        call_args(args_json@, parsed_tool_args(args_json@)) is None ==> (r matches Prepared::Malformed { reply }
            && reply@ == "Error: could not parse arguments for "@ + name@ + "."@),
        call_args(args_json@, parsed_tool_args(args_json@)) is Some ==> {
            if gate_spec(tier_of(name@), power_user_mode) == GateDecision::DenyNeedsPowerUser {
                r matches Prepared::Denied { reply } && reply@ == POWER_USER_REQUIRED@
            } else {
                &&& r matches Prepared::Run { action, audited }
                &&& audited == (tier_of(name@) != Tier::Safe)
                &&& routes_to(name@, call_args(args_json@, parsed_tool_args(args_json@))->0, action)
            }
        },
{
    if args_json.is_empty() {
        prepare_parsed(name, args_json, None, power_user_mode)
    } else {
        let parsed = parse_tool_args(args_json);
        prepare_parsed(name, args_json, parsed, power_user_mode)
    }
}

/// Phrase the outcome of running tool `name`: a result is returned as is, an
/// error as `Error running {name}: {message}`; when the call is `audited`, the
/// decision to log (allowed or error) comes with it.
pub fn finish_call(name: &str, outcome: Result<String, String>, audited: bool) -> (r: (String, Option<Decision>))
    ensures
        outcome matches Ok(v) ==> r.0@ == v@ && r.1 == (if audited { Some(Decision::Allowed) } else { None }),
        outcome matches Err(m) ==> r.0@ == "Error running "@ + name@ + ": "@ + m@ && r.1 == (if audited {
            Some(Decision::Error)
        } else {
            None
        }),
{
    match outcome {
        Ok(v) => (v, if audited { Some(Decision::Allowed) } else { None }),
        Err(m) => {
            let mut reply = String::from_str("Error running ");
            reply.append(name);
            reply.append(": ");
            reply.append(m.as_str());
            (reply, if audited { Some(Decision::Error) } else { None })
        },
    }
}

/* ------------------------------------------------------------------ */
/* routed fields are the named arguments                              */
/* ------------------------------------------------------------------ */

/// The text fields of an action, each with the name of the argument it is
/// meant to carry.
pub open spec fn text_fields(a: ToolAction) -> Seq<(Seq<char>, Seq<char>)> {
    match a {
        ToolAction::WebSearch { query } => seq![("query"@, query@)],
        ToolAction::FetchUrl { url } => seq![("url"@, url@)],
        ToolAction::SystemInfo { kind } => seq![("kind"@, kind@)],
        ToolAction::OpenApp { name } => seq![("name"@, name@)],
        ToolAction::FocusApp { name } => seq![("name"@, name@)],
        ToolAction::QuitApp { name } => seq![("name"@, name@)],
        ToolAction::MediaControl { action } => seq![("action"@, action@)],
        ToolAction::WriteClipboard { text } => seq![("text"@, text@)],
        ToolAction::ReadFile { path } => seq![("path"@, path@)],
        ToolAction::ListDir { path } => seq![("path"@, path@)],
        ToolAction::SearchFiles { path, query } => seq![("path"@, path@), ("query"@, query@)],
        ToolAction::OpenPath { path } => seq![("path"@, path@)],
        ToolAction::WriteFile { path, content, .. } => seq![("path"@, path@), ("content"@, content@)],
        ToolAction::MovePath { from, to } => seq![("from"@, from@), ("to"@, to@)],
        ToolAction::CopyFile { from, to } => seq![("from"@, from@), ("to"@, to@)],
        ToolAction::DeletePath { path } => seq![("path"@, path@)],
        ToolAction::RunCommand { command, .. } => seq![("command"@, command@)],
        _ => seq![],
    }
}

/// What a text field holds when its argument is missing or not a string: the
/// overview for `kind`, toggling playback for `action`, else nothing.
pub open spec fn text_default(key: Seq<char>) -> Seq<char> {
    if key == "kind"@ {
        "overview"@
    } else if key == "action"@ {
        "playpause"@
    } else {
        Seq::empty()
    }
}

/// The tool `name` declares a parameter called `key` in its schema.
pub open spec fn declares(name: Seq<char>, key: Seq<char>) -> bool {
    exists|i: int| 0 <= i < params_table(name).len() && (#[trigger] params_table(name)[i]).1 == key
}

/// The text field `field`, `(key, value)`, of a call to `name` carries the
/// argument `key`: the schema declares it, and the field holds the string
/// argument of that name, or its default when that is missing or not a string.
pub open spec fn carries_argument(name: Seq<char>, args: Seq<(String, ArgValue)>, field: (Seq<char>, Seq<char>)) -> bool {
    &&& declares(name, field.0)
    &&& match lookup(args, field.0) {
        Some(ArgValue::Str(v)) => field.1 == v@,
        _ => field.1 == text_default(field.0),
    }
}

/// A routed call hands each body exactly the arguments it names: every text
/// field of the action is a parameter that the tool's schema declares under
/// the field's name, and holds the string argument of that name (its default
/// when the argument is missing or not a string); the flag, list, optional
/// and numeric fields likewise come from the argument of their own name.
pub proof fn lemma_routed_fields_are_named_arguments(name: Seq<char>, args: Seq<(String, ArgValue)>, a: ToolAction)
    requires
        routes_to(name, args, a),
    ensures
        forall|i: int| 0 <= i < text_fields(a).len() ==> carries_argument(name, args, #[trigger] text_fields(a)[i]),
        a matches ToolAction::WriteFile { overwrite, .. } ==> declares(name, "overwrite"@) && overwrite == (lookup(
            args,
            "overwrite"@,
        ) == Some(ArgValue::Bool(true))),
        a matches ToolAction::RunCommand { args: argv, cwd, .. } ==> {
            &&& declares(name, "args"@) && declares(name, "cwd"@)
            &&& (lookup(args, "args"@) matches Some(ArgValue::Array(v)) ==> strings(argv@) == strings(v@))
            &&& (lookup(args, "cwd"@) matches Some(ArgValue::Str(c)) ==> (c@.len() > 0 ==> opt_view(cwd) == Some(c@)))
        },
        a matches ToolAction::SetTimer { seconds, label } ==> {
            &&& declares(name, "seconds"@) && declares(name, "label"@)
            &&& num_arg_matches(args, "seconds"@, seconds)
            &&& (lookup(args, "label"@) matches Some(ArgValue::Str(c)) ==> (c@.len() > 0 ==> opt_view(label) == Some(c@)))
        },
        a matches ToolAction::SetVolume { percent } ==> declares(name, "percent"@) && num_arg_matches(args, "percent"@, percent),
{
    reveal_strlit("web_search");
    assert("web_search"@.len() == 10 && "web_search"@[0] == 'w' && "web_search"@[1] == 'e');
    reveal_strlit("fetch_url");
    assert("fetch_url"@.len() == 9 && "fetch_url"@[0] == 'f' && "fetch_url"@[1] == 'e');
    reveal_strlit("get_datetime");
    assert("get_datetime"@.len() == 12 && "get_datetime"@[0] == 'g' && "get_datetime"@[1] == 'e');
    reveal_strlit("system_info");
    assert("system_info"@.len() == 11 && "system_info"@[0] == 's' && "system_info"@[1] == 'y');
    reveal_strlit("open_app");
    assert("open_app"@.len() == 8 && "open_app"@[0] == 'o' && "open_app"@[1] == 'p');
    reveal_strlit("focus_app");
    assert("focus_app"@.len() == 9 && "focus_app"@[0] == 'f' && "focus_app"@[1] == 'o');
    reveal_strlit("quit_app");
    assert("quit_app"@.len() == 8 && "quit_app"@[0] == 'q' && "quit_app"@[1] == 'u');
    reveal_strlit("set_volume");
    assert("set_volume"@.len() == 10 && "set_volume"@[0] == 's' && "set_volume"@[1] == 'e');
    reveal_strlit("media_control");
    assert("media_control"@.len() == 13 && "media_control"@[0] == 'm' && "media_control"@[1] == 'e');
    reveal_strlit("set_timer");
    assert("set_timer"@.len() == 9 && "set_timer"@[0] == 's' && "set_timer"@[1] == 'e');
    reveal_strlit("take_screenshot");
    assert("take_screenshot"@.len() == 15 && "take_screenshot"@[0] == 't' && "take_screenshot"@[1] == 'a');
    reveal_strlit("read_clipboard");
    assert("read_clipboard"@.len() == 14 && "read_clipboard"@[0] == 'r' && "read_clipboard"@[1] == 'e');
    reveal_strlit("write_clipboard");
    assert("write_clipboard"@.len() == 15 && "write_clipboard"@[0] == 'w' && "write_clipboard"@[1] == 'r');
    reveal_strlit("read_file");
    assert("read_file"@.len() == 9 && "read_file"@[0] == 'r' && "read_file"@[1] == 'e');
    reveal_strlit("list_dir");
    assert("list_dir"@.len() == 8 && "list_dir"@[0] == 'l' && "list_dir"@[1] == 'i');
    reveal_strlit("search_files");
    assert("search_files"@.len() == 12 && "search_files"@[0] == 's' && "search_files"@[1] == 'e');
    reveal_strlit("open_path");
    assert("open_path"@.len() == 9 && "open_path"@[0] == 'o' && "open_path"@[1] == 'p');
    reveal_strlit("write_file");
    assert("write_file"@.len() == 10 && "write_file"@[0] == 'w' && "write_file"@[1] == 'r');
    reveal_strlit("move_path");
    assert("move_path"@.len() == 9 && "move_path"@[0] == 'm' && "move_path"@[1] == 'o');
    reveal_strlit("copy_file");
    assert("copy_file"@.len() == 9 && "copy_file"@[0] == 'c' && "copy_file"@[1] == 'o');
    reveal_strlit("delete_path");
    assert("delete_path"@.len() == 11 && "delete_path"@[0] == 'd' && "delete_path"@[1] == 'e');
    reveal_strlit("run_command");
    assert("run_command"@.len() == 11 && "run_command"@[0] == 'r' && "run_command"@[1] == 'u');
    reveal_strlit("query");
    assert("query"@.len() == 5 && "query"@[0] == 'q');
    reveal_strlit("url");
    assert("url"@.len() == 3 && "url"@[0] == 'u');
    reveal_strlit("name");
    assert("name"@.len() == 4 && "name"@[0] == 'n');
    reveal_strlit("kind");
    assert("kind"@.len() == 4 && "kind"@[0] == 'k');
    reveal_strlit("action");
    assert("action"@.len() == 6 && "action"@[0] == 'a');
    reveal_strlit("text");
    assert("text"@.len() == 4 && "text"@[0] == 't');
    reveal_strlit("path");
    assert("path"@.len() == 4 && "path"@[0] == 'p');
    reveal_strlit("content");
    assert("content"@.len() == 7 && "content"@[0] == 'c');
    reveal_strlit("from");
    assert("from"@.len() == 4 && "from"@[0] == 'f');
    reveal_strlit("to");
    assert("to"@.len() == 2 && "to"@[0] == 't');
    reveal_strlit("command");
    assert("command"@.len() == 7 && "command"@[0] == 'c');
    let t = text_fields(a);
    let p = params_table(name);
    if name == "web_search"@ {
        assert forall|i: int| 0 <= i < t.len() implies carries_argument(name, args, #[trigger] t[i]) by {
            assert(p[i].1 == t[i].0);
        }
        assert(p[0].1 == "query"@);
    } else if name == "fetch_url"@ {
        assert forall|i: int| 0 <= i < t.len() implies carries_argument(name, args, #[trigger] t[i]) by {
            assert(p[i].1 == t[i].0);
        }
        assert(p[0].1 == "url"@);
    } else if name == "get_datetime"@ {
    } else if name == "system_info"@ {
        assert forall|i: int| 0 <= i < t.len() implies carries_argument(name, args, #[trigger] t[i]) by {
            assert(p[i].1 == t[i].0);
        }
        assert(p[0].1 == "kind"@);
    } else if name == "open_app"@ {
        assert forall|i: int| 0 <= i < t.len() implies carries_argument(name, args, #[trigger] t[i]) by {
            assert(p[i].1 == t[i].0);
        }
        assert(p[0].1 == "name"@);
    } else if name == "focus_app"@ {
        assert forall|i: int| 0 <= i < t.len() implies carries_argument(name, args, #[trigger] t[i]) by {
            assert(p[i].1 == t[i].0);
        }
        assert(p[0].1 == "name"@);
    } else if name == "quit_app"@ {
        assert forall|i: int| 0 <= i < t.len() implies carries_argument(name, args, #[trigger] t[i]) by {
            assert(p[i].1 == t[i].0);
        }
        assert(p[0].1 == "name"@);
    } else if name == "set_volume"@ {
        assert(p[0].1 == "percent"@);
    } else if name == "media_control"@ {
        assert forall|i: int| 0 <= i < t.len() implies carries_argument(name, args, #[trigger] t[i]) by {
            assert(p[i].1 == t[i].0);
        }
        assert(p[0].1 == "action"@);
    } else if name == "set_timer"@ {
        assert(p[0].1 == "seconds"@);
        assert(p[1].1 == "label"@);
    } else if name == "take_screenshot"@ {
    } else if name == "read_clipboard"@ {
    } else if name == "write_clipboard"@ {
        assert forall|i: int| 0 <= i < t.len() implies carries_argument(name, args, #[trigger] t[i]) by {
            assert(p[i].1 == t[i].0);
        }
        assert(p[0].1 == "text"@);
    } else if name == "read_file"@ {
        assert forall|i: int| 0 <= i < t.len() implies carries_argument(name, args, #[trigger] t[i]) by {
            assert(p[i].1 == t[i].0);
        }
        assert(p[0].1 == "path"@);
    } else if name == "list_dir"@ {
        assert forall|i: int| 0 <= i < t.len() implies carries_argument(name, args, #[trigger] t[i]) by {
            assert(p[i].1 == t[i].0);
        }
        assert(p[0].1 == "path"@);
    } else if name == "search_files"@ {
        assert forall|i: int| 0 <= i < t.len() implies carries_argument(name, args, #[trigger] t[i]) by {
            assert(p[i].1 == t[i].0);
        }
        assert(p[0].1 == "path"@);
        assert(p[1].1 == "query"@);
    } else if name == "open_path"@ {
        assert forall|i: int| 0 <= i < t.len() implies carries_argument(name, args, #[trigger] t[i]) by {
            assert(p[i].1 == t[i].0);
        }
        assert(p[0].1 == "path"@);
    } else if name == "write_file"@ {
        assert forall|i: int| 0 <= i < t.len() implies carries_argument(name, args, #[trigger] t[i]) by {
            assert(p[i].1 == t[i].0);
        }
        assert(p[0].1 == "path"@);
        assert(p[1].1 == "content"@);
        assert(p[2].1 == "overwrite"@);
    } else if name == "move_path"@ {
        assert forall|i: int| 0 <= i < t.len() implies carries_argument(name, args, #[trigger] t[i]) by {
            assert(p[i].1 == t[i].0);
        }
        assert(p[0].1 == "from"@);
        assert(p[1].1 == "to"@);
    } else if name == "copy_file"@ {
        assert forall|i: int| 0 <= i < t.len() implies carries_argument(name, args, #[trigger] t[i]) by {
            assert(p[i].1 == t[i].0);
        }
        assert(p[0].1 == "from"@);
        assert(p[1].1 == "to"@);
    } else if name == "delete_path"@ {
        assert forall|i: int| 0 <= i < t.len() implies carries_argument(name, args, #[trigger] t[i]) by {
            assert(p[i].1 == t[i].0);
        }
        assert(p[0].1 == "path"@);
    } else if name == "run_command"@ {
        assert forall|i: int| 0 <= i < t.len() implies carries_argument(name, args, #[trigger] t[i]) by {
            assert(p[i].1 == t[i].0);
        }
        assert(p[0].1 == "command"@);
        assert(p[1].1 == "args"@);
        assert(p[2].1 == "cwd"@);
    }
}

} // verus!
