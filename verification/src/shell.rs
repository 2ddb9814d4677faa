//! `run_command` validation, the single most powerful capability. The
//! always-on safety baseline: an argv list (never a shell string, so no shell
//! interpolation), a working directory confined to an allowed root, and a cap on
//! captured output.
use vstd::prelude::*;

use crate::chars::{chars_of, string_from, trim, trim_range};
use crate::sandbox::{
    allowed_roots, allowed_roots_spec, deterministic, lemma_resolutions_agree, resolve_in_roots, resolve_outcome,
    sandbox_message, strings,
    PathEnv, SandboxError,
};
use crate::settings::LoSettings;

verus! {

/// Timeout for a command, in milliseconds.
pub const TIMEOUT_MS: u64 = 60000;
/// Most characters of captured output kept.
pub const MAX_OUTPUT: usize = 16384;

/// Why a command was refused.
#[derive(Debug, Clone)]
pub enum ShellError {
    /// No command was given.
    EmptyCommand,
    /// The working directory is refused by the sandbox.
    Sandbox(SandboxError),
}

/// The user-facing message of a shell error.
pub open spec fn shell_message(e: ShellError) -> Seq<char> {
    match e {
        ShellError::EmptyCommand => "No command was given."@,
        ShellError::Sandbox(s) => sandbox_message(s),
    }
}

impl ShellError {
    /// The user-facing message (a sandbox refusal keeps its own wording).
    pub fn message(&self) -> (r: String)
        ensures
            r@ == shell_message(*self),
    {
        match self {
            ShellError::EmptyCommand => String::from_str("No command was given."),
            ShellError::Sandbox(e) => e.message(),
        }
    }
}

/// A validated, ready-to-spawn command (argv only, never a shell string).
#[derive(Debug, Clone)]
pub struct RunPlan {
    pub program: String,
    pub args: Vec<String>,
    pub cwd: String,
}

/// What validating a `run_command` request may give: refused as empty exactly
/// when the command is blank; otherwise the trimmed program, the argv verbatim,
/// and a working directory that the sandbox resolved from a non-blank `cwd`
/// (the first allowed root when none is given), or the sandbox's refusal of
/// that directory.
pub open spec fn prepare_outcome<F: Fn(&str) -> String>(
    settings: LoSettings,
    command: Seq<char>,
    args: Seq<String>,
    cwd: Option<Seq<char>>,
    env: PathEnv,
    realpath: F,
    r: Result<RunPlan, ShellError>,
) -> bool {
    &&& (r matches Err(ShellError::EmptyCommand)) <==> trim(command).len() == 0
    &&& r matches Ok(plan) ==> {
        &&& plan.program@ == trim(command)
        &&& plan.args@ == args
        &&& match cwd {
            Some(c) if trim(c).len() > 0 => resolve_outcome(settings, c, env, realpath, Ok::<String, SandboxError>(plan.cwd)),
            _ => plan.cwd@ == allowed_roots_spec(settings, env)[0],
        }
    }
    &&& r matches Err(ShellError::Sandbox(e)) ==> {
        &&& cwd is Some
        &&& trim(cwd->0).len() > 0
        &&& e is OutsideRoots
        &&& resolve_outcome(settings, cwd->0, env, realpath, Err::<String, SandboxError>(e))
    }
}

/// The view of an optional string slice.
pub open spec fn opt_str(o: Option<&str>) -> Option<Seq<char>> {
    match o {
        Some(c) => Some(c@),
        None => None,
    }
}

/// Validate a `run_command` request: a non-empty executable, the argv list kept
/// verbatim, and a working directory confined to an allowed root (the first
/// root when none is given).
pub fn prepare<F: Fn(&str) -> String>(
    settings: &LoSettings,
    command: &str,
    args: &Vec<String>,
    cwd: Option<&str>,
    env: &PathEnv,
    realpath: &F,
) -> (r: Result<RunPlan, ShellError>)
    requires
        forall|x: &str| realpath.requires((x,)),
    ensures
        prepare_outcome(*settings, command@, args@, opt_str(cwd), *env, *realpath, r),
{
    let cv = chars_of(command);
    let (a, b) = trim_range(&cv, 0, cv.len());
    assert(cv@.subrange(0, cv@.len() as int) == cv@);
    if a == b {
        return Err(ShellError::EmptyCommand);
    }
    let program = string_from(&cv, a, b);
    let dir = match cwd {
        Some(c) => {
            let ccv = chars_of(c);
            let (ca, cb) = trim_range(&ccv, 0, ccv.len());
            assert(ccv@.subrange(0, ccv@.len() as int) == ccv@);
            if ca < cb {
                match resolve_in_roots(settings, c, env, realpath) {
                    Ok(p) => p,
                    Err(e) => {
                        return Err(ShellError::Sandbox(e));
                    },
                }
            } else {
                let roots = allowed_roots(settings, env);
                assert(strings(roots@)[0] == roots@[0]@);
                roots[0].clone()
            }
        },
        None => {
            let roots = allowed_roots(settings, env);
            assert(strings(roots@)[0] == roots@[0]@);
            roots[0].clone()
        },
    };
    Ok(RunPlan { program, args: args.clone(), cwd: dir })
}

/// The marker appended to truncated output.
pub open spec fn truncation_marker() -> Seq<char> {
    "\n\u{2026} (truncated)"@
}

/// Cap captured output to [`MAX_OUTPUT`] characters, appending a truncation
/// marker when anything was cut.
pub fn truncate_output(s: &str) -> (r: String)
    ensures
        s@.len() > MAX_OUTPUT ==> r@ == s@.take(MAX_OUTPUT as int) + truncation_marker(),
        s@.len() <= MAX_OUTPUT ==> r@ == s@,
{
    let v = chars_of(s);
    if v.len() > MAX_OUTPUT {
        let mut head = string_from(&v, 0, MAX_OUTPUT);
        head.append("\n\u{2026} (truncated)");
        head
    } else {
        String::from_str(s)
    }
}

/// With a resolver that gives equal results for equal paths, a non-blank
/// command with a non-blank working directory is refused by the sandbox exactly
/// when resolving that directory on its own is refused, and otherwise runs in
/// the directory that resolution gives.
pub proof fn lemma_prepare_agrees_with_sandbox<F: Fn(&str) -> String>(
    settings: LoSettings,
    command: Seq<char>,
    args: Seq<String>,
    cwd: Seq<char>,
    env: PathEnv,
    realpath: F,
    r: Result<RunPlan, ShellError>,
    resolved: Result<String, SandboxError>,
)
    requires
        deterministic(realpath),
        prepare_outcome(settings, command, args, Some(cwd), env, realpath, r),
        resolve_outcome(settings, cwd, env, realpath, resolved),
        trim(command).len() > 0,
        trim(cwd).len() > 0,
    ensures
        (r matches Err(ShellError::Sandbox(_))) <==> resolved is Err,
        r matches Ok(plan) ==> (resolved matches Ok(p) && plan.cwd@ == p@),
{
    match r {
        Ok(plan) => {
            lemma_resolutions_agree(settings, cwd, env, realpath, Ok::<String, SandboxError>(plan.cwd), resolved);
        },
        Err(ShellError::Sandbox(e)) => {
            lemma_resolutions_agree(settings, cwd, env, realpath, Err::<String, SandboxError>(e), resolved);
        },
        Err(ShellError::EmptyCommand) => {},
    }
}

} // verus!
