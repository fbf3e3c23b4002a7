//! OpenCode plugin hook (`tool.execute.before` / `tool.execute.after`).
//!
//! OpenCode plugins receive `{ tool, input, sessionId, cwd }` on stdin;
//! replies may set `{ allow: false, message }` or `{ output: string }` on
//! after hooks.

use vstd::prelude::*;

use crate::adapters::or_lit;
use crate::event::{Harness, NormalizedArgs, Phase, SArgs, SToolEvent, SToolKind, ToolEvent, ToolKind};
use crate::json::{field, str_field, str_value, Json};
use crate::policy::{Decision, PolicyOutcome};
use crate::text::{ascii_lower, ascii_lower_chars, chars_of, contains_lit, contains_seq, eq_lit, string_from};

verus! {

/// OpenCode reply.
#[derive(Debug, PartialEq, Eq)]
pub enum OpencodeReply {
    /// `{"allow": true}`.
    Allow,
    /// `{"allow": false, "message": message}`.
    Deny {
        /// Message for the agent.
        message: String,
    },
    /// `{"allow": true, "input": input}`.
    Rewrite {
        /// Rewritten tool input.
        input: Json,
    },
    /// `{"output": text}`.
    Output {
        /// Replacement output.
        text: String,
    },
}

/// The tool kind for a lower-cased tool name.
pub open spec fn spec_tool(lower: Seq<char>) -> SToolKind {
    if lower == "read"@ {
        SToolKind::Read
    } else if lower == "write"@ || lower == "edit"@ {
        SToolKind::Write
    } else if lower == "bash"@ || lower == "shell"@ {
        SToolKind::Shell
    } else if lower == "grep"@ {
        SToolKind::Grep
    } else if lower == "glob"@ {
        SToolKind::Glob
    } else {
        SToolKind::Other(lower)
    }
}

/// The tool name: `tool` when present (it must be a string), else
/// `toolName`.
pub open spec fn spec_tool_name(value: Json) -> Seq<char> {
    let n = match field(value, "tool"@) {
        Some(j) => str_value(Some(j)),
        None => str_field(value, "toolName"@),
    };
    or_lit(n, ""@)
}

/// The tool input: `input` when present, else `args`.
pub open spec fn spec_input(value: Json) -> Option<Json> {
    match field(value, "input"@) {
        Some(j) => Some(j),
        None => field(value, "args"@),
    }
}

/// Normalized arguments from the tool input.
pub open spec fn spec_args(input: Option<Json>) -> SArgs {
    match input {
        Some(obj) => if obj is Obj {
            SArgs {
                path: str_field(obj, "path"@),
                offset: None,
                limit: None,
                command: str_field(obj, "command"@),
                cwd: None,
                pattern: str_field(obj, "pattern"@),
                raw_input: input,
            }
        } else {
            SArgs {
                path: None,
                offset: None,
                limit: None,
                command: None,
                cwd: None,
                pattern: None,
                raw_input: input,
            }
        },
        None => SArgs {
            path: None,
            offset: None,
            limit: None,
            command: None,
            cwd: None,
            pattern: None,
            raw_input: None,
        },
    }
}

/// The event an OpenCode payload describes.
pub open spec fn spec_parse(name: Seq<char>, value: Json) -> SToolEvent {
    SToolEvent {
        harness: Harness::Opencode,
        phase: if contains_seq(name, "after"@) {
            Phase::Post
        } else {
            Phase::Pre
        },
        tool: spec_tool(ascii_lower(spec_tool_name(value))),
        args: spec_args(spec_input(value)),
        output: str_field(value, "output"@),
        session_id: or_lit(str_field(value, "sessionId"@), "unknown"@),
        cwd: or_lit(str_field(value, "cwd"@), "."@),
    }
}

fn tool_kind(lower: &[char]) -> (r: ToolKind)
    ensures
        r.sv() == spec_tool(lower@),
{
    if eq_lit(lower, "read") {
        ToolKind::Read
    } else if eq_lit(lower, "write") || eq_lit(lower, "edit") {
        ToolKind::Write
    } else if eq_lit(lower, "bash") || eq_lit(lower, "shell") {
        ToolKind::Shell
    } else if eq_lit(lower, "grep") {
        ToolKind::Grep
    } else if eq_lit(lower, "glob") {
        ToolKind::Glob
    } else {
        ToolKind::Other(string_from(lower))
    }
}

/// The event an OpenCode payload describes.
pub fn parse(event_name: &str, value: Json) -> (r: ToolEvent)
    ensures
        r.sv() == spec_parse(event_name@, value),
{
    let phase = if contains_lit(chars_of(event_name).as_slice(), "after") {
        Phase::Post
    } else {
        Phase::Pre
    };
    let name = match value.get("tool") {
        Some(j) => j.as_string(),
        None => value.str_at("toolName"),
    };
    let name = match name {
        Some(n) => n,
        None => "".to_owned(),
    };
    let lower = ascii_lower_chars(chars_of(name.as_str()).as_slice());
    let tool = tool_kind(lower.as_slice());
    let output = value.str_at("output");
    let session_id = match value.str_at("sessionId") {
        Some(s) => s,
        None => "unknown".to_owned(),
    };
    let cwd = match value.str_at("cwd") {
        Some(c) => c,
        None => ".".to_owned(),
    };
    let input = if value.has("input") {
        value.take("input")
    } else {
        value.take("args")
    };
    let args = match input {
        Some(obj) => {
            if obj.is_object() {
                NormalizedArgs {
                    path: obj.str_at("path"),
                    offset: None,
                    limit: None,
                    command: obj.str_at("command"),
                    cwd: None,
                    pattern: obj.str_at("pattern"),
                    raw_input: Some(obj),
                }
            } else {
                NormalizedArgs {
                    path: None,
                    offset: None,
                    limit: None,
                    command: None,
                    cwd: None,
                    pattern: None,
                    raw_input: Some(obj),
                }
            }
        },
        None => NormalizedArgs {
            path: None,
            offset: None,
            limit: None,
            command: None,
            cwd: None,
            pattern: None,
            raw_input: None,
        },
    };
    ToolEvent { harness: Harness::Opencode, phase, tool, args, output, session_id, cwd }
}

/// What the reply for the applied decision `d` is.
pub open spec fn spec_render(d: Decision, r: OpencodeReply) -> bool {
    match d {
        Decision::Allow => r is Allow,
        Decision::Deny { agent_message, .. } => r matches OpencodeReply::Deny { message }
            && message@ == agent_message@,
        Decision::Rewrite { updated_input, .. } => r matches OpencodeReply::Rewrite { input }
            && input == updated_input,
        Decision::ReplaceOutput { text, .. } => r matches OpencodeReply::Output { text: t }
            && t@ == text@,
    }
}

/// The reply for the applied decision of `outcome` (the same for every
/// event name).
pub fn render(event_name: &str, outcome: PolicyOutcome) -> (r: OpencodeReply)
    ensures
        spec_render(outcome.applied, r),
{
    match outcome.applied {
        Decision::Allow => OpencodeReply::Allow,
        Decision::Deny { agent_message, .. } => OpencodeReply::Deny { message: agent_message },
        Decision::Rewrite { updated_input, .. } => OpencodeReply::Rewrite { input: updated_input },
        Decision::ReplaceOutput { text, .. } => OpencodeReply::Output { text },
    }
}

// ---------------------------------------------------------------------
// Laws
// ---------------------------------------------------------------------

/// OpenCode tool names (lower-cased) map to their kinds; any other name is kept as `Other`.
pub proof fn law_tool_names(lower: Seq<char>)
    ensures
        (lower == "read"@) ==> spec_tool(lower) == SToolKind::Read,
        (lower == "write"@ || lower == "edit"@) ==> spec_tool(lower) == SToolKind::Write,
        (lower == "bash"@ || lower == "shell"@) ==> spec_tool(lower) == SToolKind::Shell,
        (lower == "grep"@) ==> spec_tool(lower) == SToolKind::Grep,
        (lower == "glob"@) ==> spec_tool(lower) == SToolKind::Glob,
        (lower != "read"@ && lower != "write"@ && lower != "edit"@ && lower != "bash"@ && lower != "shell"@ && lower != "grep"@ && lower != "glob"@) ==> spec_tool(lower) == SToolKind::Other(lower),
{
    reveal_strlit("read");
    reveal_strlit("write");
    reveal_strlit("edit");
    reveal_strlit("bash");
    reveal_strlit("shell");
    reveal_strlit("grep");
    reveal_strlit("glob");
    assert("read"@.len() == 4 && "read"@[0] == 'r' && "read"@[1] == 'e' && "read"@[2] == 'a');
    assert("write"@.len() == 5 && "write"@[0] == 'w' && "write"@[1] == 'r' && "write"@[2] == 'i');
    assert("edit"@.len() == 4 && "edit"@[0] == 'e' && "edit"@[1] == 'd' && "edit"@[2] == 'i');
    assert("bash"@.len() == 4 && "bash"@[0] == 'b' && "bash"@[1] == 'a' && "bash"@[2] == 's');
    assert("shell"@.len() == 5 && "shell"@[0] == 's' && "shell"@[1] == 'h' && "shell"@[2] == 'e');
    assert("grep"@.len() == 4 && "grep"@[0] == 'g' && "grep"@[1] == 'r' && "grep"@[2] == 'e');
    assert("glob"@.len() == 4 && "glob"@[0] == 'g' && "glob"@[1] == 'l' && "glob"@[2] == 'o');
}

} // verus!
