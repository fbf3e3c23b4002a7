//! Harness hook settings and the legacy Cursor read cap.
//!
//! The hook driver itself (stdin JSON, policy, stdout JSON, fail open)
//! lives with the program; this module holds its paths, its environment
//! and the legacy read-cap decision.

use vstd::prelude::*;

use crate::adapters::cursor::input_path;
use crate::json::{field, opt_view, Json};
use crate::policy::{join_path, resolve_path};
use crate::read::WHOLE_FILE_LIMIT_LINES;
use crate::text::{dec, dec_chars, push_chars, push_str_chars, str_eq, string_from};

verus! {

/// Runtime paths (injectable in tests; defaults under the home directory).
#[derive(Debug, Clone, PartialEq, Eq)]
pub struct HookPaths {
    /// Policy file.
    pub policy_file: String,
    /// Telemetry JSONL file.
    pub telemetry_file: String,
    /// Directory for archived outputs.
    pub archive_dir: String,
}

impl HookPaths {
    /// Default locations under `$HOME/.config` and `$HOME/.local/state`.
    pub fn from_home(home: &str) -> (r: HookPaths)
        ensures
            r.policy_file@ == join_path(home@, ".config/toolgate/policy.toml"@),
            r.telemetry_file@ == join_path(home@, ".local/state/toolgate/events.jsonl"@),
            r.archive_dir@ == join_path(home@, ".local/state/toolgate/archive"@),
    {
        HookPaths {
            policy_file: resolve_path(home, ".config/toolgate/policy.toml"),
            telemetry_file: resolve_path(home, ".local/state/toolgate/events.jsonl"),
            archive_dir: resolve_path(home, ".local/state/toolgate/archive"),
        }
    }
}

/// Hook environment.
#[derive(Debug, Clone, PartialEq, Eq)]
pub struct HookEnv {
    /// Runtime paths.
    pub paths: HookPaths,
    /// `TOOLGATE_POLICY` value, if set.
    pub policy_override: Option<String>,
    /// Whether telemetry rows are written.
    pub telemetry_enabled: bool,
}

impl HookEnv {
    /// The environment from the values of `HOME`, `TOOLGATE_POLICY` and
    /// `TOOLGATE_TELEMETRY`: home defaults to `.`, and telemetry is on
    /// unless its variable is exactly `0`.
    pub fn from_vars(home: Option<&str>, policy: Option<String>, telemetry: Option<&str>) -> (r:
        HookEnv)
        ensures
            r.paths.text() == HookPaths::from_home_spec(
                match home {
                    Some(h) => h@,
                    None => "."@,
                },
            ),
            opt_view(r.policy_override) == opt_view(policy),
            r.telemetry_enabled == !(match telemetry {
                Some(t) => t@ == "0"@,
                None => false,
            }),
    {
        let h: &str = match home {
            Some(h) => h,
            None => ".",
        };
        let telemetry_enabled = match telemetry {
            Some(t) => !str_eq(t, "0"),
            None => true,
        };
        let paths = HookPaths::from_home(h);
        proof {
            HookPaths::lemma_from_home_spec(h@, paths);
        }
        HookEnv { paths, policy_override: policy, telemetry_enabled }
    }
}

impl HookPaths {
    /// The paths [`HookPaths::from_home`] gives for `home`, by their text.
    pub open spec fn from_home_spec(home: Seq<char>) -> HookPathsView {
        HookPathsView {
            policy_file: join_path(home, ".config/toolgate/policy.toml"@),
            telemetry_file: join_path(home, ".local/state/toolgate/events.jsonl"@),
            archive_dir: join_path(home, ".local/state/toolgate/archive"@),
        }
    }

    /// The paths by their text.
    pub open spec fn text(&self) -> HookPathsView {
        HookPathsView {
            policy_file: self.policy_file@,
            telemetry_file: self.telemetry_file@,
            archive_dir: self.archive_dir@,
        }
    }

    proof fn lemma_from_home_spec(home: Seq<char>, p: HookPaths)
        requires
            p.policy_file@ == join_path(home, ".config/toolgate/policy.toml"@),
            p.telemetry_file@ == join_path(home, ".local/state/toolgate/events.jsonl"@),
            p.archive_dir@ == join_path(home, ".local/state/toolgate/archive"@),
        ensures
            p.text() == HookPaths::from_home_spec(home),
    {
    }
}

/// Hook paths by their text.
pub struct HookPathsView {
    /// Policy file.
    pub policy_file: Seq<char>,
    /// Telemetry file.
    pub telemetry_file: Seq<char>,
    /// Archive directory.
    pub archive_dir: Seq<char>,
}

// ---------------------------------------------------------------------
// Legacy Cursor read hook
// ---------------------------------------------------------------------

/// Legacy Cursor read-hook input.
#[derive(Debug, PartialEq, Eq)]
pub struct PreToolUseInput {
    /// Tool name.
    pub tool_name: Option<String>,
    /// Tool input.
    pub tool_input: Option<Json>,
    /// Working directory.
    pub cwd: Option<String>,
}

/// Legacy Cursor read-hook output.
#[derive(Debug, PartialEq, Eq)]
pub struct PreToolUseOutput {
    /// `allow` or `deny`.
    pub permission: String,
    /// Message for the user.
    pub user_message: Option<String>,
    /// Message for the agent.
    pub agent_message: Option<String>,
    /// Rewritten tool input.
    pub updated_input: Option<Json>,
}

/// The output allows the call and changes nothing.
pub open spec fn is_allow_unchanged(o: PreToolUseOutput) -> bool {
    &&& o.permission@ == "allow"@
    &&& o.user_message is None
    &&& o.agent_message is None
    &&& o.updated_input is None
}

/// Allow, unchanged.
pub fn allow_unchanged() -> (r: PreToolUseOutput)
    ensures
        is_allow_unchanged(r),
{
    PreToolUseOutput {
        permission: "allow".to_owned(),
        user_message: None,
        agent_message: None,
        updated_input: None,
    }
}

/// Absolute path of a read target relative to `cwd`.
pub fn resolve_read_path(cwd: &str, raw: &str) -> (r: String)
    ensures
        r@ == join_path(cwd@, raw@),
{
    resolve_path(cwd, raw)
}

/// The path a whole-file read names, when the read-cap decision depends
/// on it: the hook is on, the tool input is an object without `offset`
/// or `limit`, and it names a path.
pub open spec fn spec_read_path(input: PreToolUseInput, read_hook_env: Option<Seq<char>>) -> Option<
    Seq<char>,
> {
    if read_hook_env == Some("0"@) {
        None
    } else {
        match input.tool_input {
            Some(obj) => if obj is Obj && field(obj, "offset"@) is None && field(obj, "limit"@) is None {
                input_path(obj)
            } else {
                None
            },
            None => None,
        }
    }
}

/// The file whose line count decides the legacy read cap.
pub open spec fn spec_cursor_read_target(
    input: PreToolUseInput,
    read_hook_env: Option<Seq<char>>,
) -> Option<Seq<char>> {
    match spec_read_path(input, read_hook_env) {
        Some(p) => Some(
            join_path(
                match input.cwd {
                    Some(c) => c@,
                    None => "."@,
                },
                p,
            ),
        ),
        None => None,
    }
}

/// Message for a refused whole-file read.
pub open spec fn legacy_message(path: Seq<char>, total: nat) -> Seq<char> {
    path + " has "@ + dec(total)
        + " lines; whole-file reads over 400 lines are capped. Re-read with offset/limit for the range you need (e.g. the path:start-end from search), or call one-grep `context` for the enclosing symbol."@
}

fn env_off(read_hook_env: Option<&str>) -> (r: bool)
    ensures
        r == (match read_hook_env {
            Some(v) => v@ == "0"@,
            None => false,
        }),
{
    match read_hook_env {
        Some(v) => str_eq(v, "0"),
        None => false,
    }
}

fn read_path(input: &PreToolUseInput, read_hook_env: Option<&str>) -> (r: Option<String>)
    ensures
        opt_view(r) == spec_read_path(
            *input,
            match read_hook_env {
                Some(v) => Some(v@),
                None => None,
            },
        ),
{
    if env_off(read_hook_env) {
        return None;
    }
    match &input.tool_input {
        Some(obj) => {
            if obj.is_object() && !obj.has("offset") && !obj.has("limit") {
                match obj.str_at("path") {
                    Some(p) => Some(p),
                    None => match obj.str_at("file_path") {
                        Some(p) => Some(p),
                        None => obj.str_at("target_file"),
                    },
                }
            } else {
                None
            }
        },
        None => None,
    }
}

/// The file whose line count [`decide_cursor_read`] needs, if any.
pub fn cursor_read_target(input: &PreToolUseInput, read_hook_env: Option<&str>) -> (r: Option<
    String,
>)
    ensures
        opt_view(r) == spec_cursor_read_target(
            *input,
            match read_hook_env {
                Some(v) => Some(v@),
                None => None,
            },
        ),
{
    match read_path(input, read_hook_env) {
        Some(p) => {
            let cwd: &str = match &input.cwd {
                Some(c) => c.as_str(),
                None => ".",
            };
            Some(resolve_read_path(cwd, p.as_str()))
        },
        None => None,
    }
}

/// Legacy read cap: a whole-file read of a file of more than
/// [`WHOLE_FILE_LIMIT_LINES`] lines is denied with a message that names
/// the path as given; everything else (the hook off, ranged reads, no
/// path, an unknown line count) is allowed unchanged. `lines` is the line
/// count of the file at [`cursor_read_target`].
pub fn decide_cursor_read(
    input: &PreToolUseInput,
    read_hook_env: Option<&str>,
    lines: Option<u64>,
) -> (r: PreToolUseOutput)
    ensures
        match (
            spec_read_path(
                *input,
                match read_hook_env {
                    Some(v) => Some(v@),
                    None => None,
                },
            ),
            lines,
        ) {
            (Some(p), Some(n)) => if n > 400 {
                &&& r.permission@ == "deny"@
                &&& r.user_message is None
                &&& opt_view(r.agent_message) == Some(legacy_message(p, n as nat))
                &&& r.updated_input is None
            } else {
                is_allow_unchanged(r)
            },
            _ => is_allow_unchanged(r),
        },
{
    let p = match read_path(input, read_hook_env) {
        Some(p) => p,
        None => {
            return allow_unchanged();
        },
    };
    let total = match lines {
        Some(n) => n,
        None => {
            return allow_unchanged();
        },
    };
    if total <= WHOLE_FILE_LIMIT_LINES {
        return allow_unchanged();
    }
    let mut m: Vec<char> = Vec::new();
    push_str_chars(&mut m, p.as_str());
    push_str_chars(&mut m, " has ");
    let d = dec_chars(total);
    push_chars(&mut m, d.as_slice());
    push_str_chars(
        &mut m,
        " lines; whole-file reads over 400 lines are capped. Re-read with offset/limit for the range you need (e.g. the path:start-end from search), or call one-grep `context` for the enclosing symbol.",
    );
    PreToolUseOutput {
        permission: "deny".to_owned(),
        user_message: None,
        agent_message: Some(string_from(m.as_slice())),
        updated_input: None,
    }
}

} // verus!
