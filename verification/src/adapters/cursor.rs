//! Cursor Agent hooks (`preToolUse` / `postToolUse` / `afterShellExecution`
//! / `afterMCPExecution`).
//!
//! - `preToolUse`: deny / rewrite via `permission` + `updated_input`
//! - `postToolUse`: MCP output replaced via `updated_mcp_tool_output` only
//! - `afterShellExecution` / `afterMCPExecution`: telemetry only

use vstd::prelude::*;

use crate::adapters::{or_else, or_lit, text_content, text_content_json};
use crate::event::{Harness, NormalizedArgs, Phase, SArgs, SToolEvent, SToolKind, ToolEvent, ToolKind};
use crate::json::{field, opt_view, str_field, str_value, u64_value, Json};
use crate::policy::{Decision, PolicyOutcome};
use crate::text::{after_first, chars_of, find_char, starts_with, starts_with_lit, str_eq, string_from, sub_chars};

verus! {

/// Cursor hook reply (union of hook output shapes).
#[derive(Debug, PartialEq, Eq)]
pub enum CursorReply {
    /// `{"permission", "agent_message"?, "updated_input"?}`.
    PreToolUse {
        /// `allow` or `deny`.
        permission: String,
        /// Message for the agent.
        agent_message: Option<String>,
        /// Rewritten tool input.
        updated_input: Option<Json>,
    },
    /// `{"updated_mcp_tool_output"?, "additional_context"?}`.
    PostToolUse {
        /// Replacement MCP tool output.
        updated_mcp_tool_output: Option<Json>,
        /// Extra context for the agent.
        additional_context: Option<String>,
    },
    /// `{}`.
    Empty,
}

// ---------------------------------------------------------------------
// Parsing
// ---------------------------------------------------------------------

/// After-hooks are named `post...` or `after...`.
pub open spec fn spec_phase(name: Seq<char>) -> Phase {
    if starts_with(name, "post"@) || starts_with(name, "after"@) {
        Phase::Post
    } else {
        Phase::Pre
    }
}

/// The dedicated shell/MCP execution hooks.
pub open spec fn is_exec_hook(n: Seq<char>) -> bool {
    n == "beforeMCPExecution"@ || n == "afterMCPExecution"@ || n == "afterShellExecution"@
}

/// The name a tool is classified by: the hook's own name for the
/// dedicated execution hooks, else the tool's name.
pub open spec fn spec_classify(hook_event: Option<Seq<char>>, tool_name: Seq<char>) -> Seq<char> {
    match hook_event {
        Some(h) => if is_exec_hook(h) {
            h
        } else {
            tool_name
        },
        None => tool_name,
    }
}

/// The MCP server named in the payload (`mcp` when none).
pub open spec fn server_of(value: Json) -> Seq<char> {
    or_lit(str_field(value, "mcp_server_name"@), "mcp"@)
}

/// The tool named `name` in `MCP:server:tool` form (what follows the
/// first `:` after the prefix, or all of it).
pub open spec fn mcp_suffix_tool(name: Seq<char>) -> Seq<char> {
    let rest = name.skip(4);
    match after_first(rest, ':') {
        Some(t) => t,
        None => rest,
    }
}

/// The tool kind for the classified name.
pub open spec fn spec_map_tool(name: Seq<char>, value: Json) -> SToolKind {
    if field(value, "mcp_server_name"@) is Some && !is_exec_hook(name) {
        SToolKind::Mcp(server_of(value), name)
    } else if name == "Read"@ || name == "beforeReadFile"@ {
        SToolKind::Read
    } else if name == "Write"@ || name == "afterFileEdit"@ {
        SToolKind::Write
    } else if name == "Edit"@ {
        SToolKind::Edit
    } else if name == "Shell"@ || name == "Bash"@ || name == "beforeShellExecution"@ || name
        == "afterShellExecution"@ {
        SToolKind::Shell
    } else if name == "Grep"@ {
        SToolKind::Grep
    } else if name == "Glob"@ {
        SToolKind::Glob
    } else if starts_with(name, "MCP:"@) {
        SToolKind::Mcp(server_of(value), mcp_suffix_tool(name))
    } else if name == "beforeMCPExecution"@ || name == "afterMCPExecution"@ {
        SToolKind::Mcp(server_of(value), or_lit(str_field(value, "tool_name"@), "tool"@))
    } else {
        SToolKind::Other(name)
    }
}

/// The first workspace root, when it is a string.
pub open spec fn first_root(value: Json) -> Option<Seq<char>> {
    match field(value, "workspace_roots"@) {
        Some(Json::Arr(v)) => if v@.len() > 0 {
            str_value(Some(v@[0]))
        } else {
            None
        },
        _ => None,
    }
}

/// Working directory: `cwd`, else the first workspace root, else `.`.
pub open spec fn spec_cwd(value: Json) -> Seq<char> {
    or_lit(or_else(str_field(value, "cwd"@), first_root(value)), "."@)
}

/// Session id: `conversation_id` when present (it must be a string),
/// else `tool_use_id`, else `unknown`.
pub open spec fn spec_session(value: Json) -> Seq<char> {
    let id = match field(value, "conversation_id"@) {
        Some(j) => str_value(Some(j)),
        None => str_field(value, "tool_use_id"@),
    };
    or_lit(id, "unknown"@)
}

/// The tool output an after-hook carries.
pub open spec fn spec_post_output(name: Seq<char>, value: Json) -> Option<Seq<char>> {
    if name == "postToolUse"@ {
        str_field(value, "tool_output"@)
    } else if name == "afterShellExecution"@ {
        str_field(value, "output"@)
    } else if name == "afterMCPExecution"@ {
        str_field(value, "result_json"@)
    } else {
        None
    }
}

/// Path keys of a tool input, in order of preference.
pub open spec fn input_path(obj: Json) -> Option<Seq<char>> {
    or_else(
        str_field(obj, "path"@),
        or_else(str_field(obj, "file_path"@), str_field(obj, "target_file"@)),
    )
}

/// Pattern keys of a tool input, in order of preference.
pub open spec fn input_pattern(obj: Json) -> Option<Seq<char>> {
    or_else(
        str_field(obj, "pattern"@),
        or_else(str_field(obj, "glob_pattern"@), str_field(obj, "glob"@)),
    )
}

/// Normalized arguments: from the object `tool_input` when there is one
/// (kept whole as the raw input), with the top-level `command` and
/// `file_path` as fallbacks.
pub open spec fn spec_args(value: Json) -> SArgs {
    let top_cmd = str_field(value, "command"@);
    let top_path = str_field(value, "file_path"@);
    match field(value, "tool_input"@) {
        Some(obj) => if obj is Obj {
            SArgs {
                path: or_else(input_path(obj), top_path),
                offset: u64_value(field(obj, "offset"@)),
                limit: u64_value(field(obj, "limit"@)),
                command: or_else(top_cmd, str_field(obj, "command"@)),
                cwd: None,
                pattern: input_pattern(obj),
                raw_input: Some(obj),
            }
        } else {
            SArgs {
                path: top_path,
                offset: None,
                limit: None,
                command: top_cmd,
                cwd: None,
                pattern: None,
                raw_input: None,
            }
        },
        None => SArgs {
            path: top_path,
            offset: None,
            limit: None,
            command: top_cmd,
            cwd: None,
            pattern: None,
            raw_input: None,
        },
    }
}

/// The event a Cursor payload describes.
pub open spec fn spec_parse(name: Seq<char>, value: Json) -> SToolEvent {
    let classify = spec_classify(
        str_field(value, "hook_event_name"@),
        or_lit(str_field(value, "tool_name"@), ""@),
    );
    SToolEvent {
        harness: Harness::Cursor,
        phase: spec_phase(name),
        tool: spec_map_tool(classify, value),
        args: spec_args(value),
        output: spec_post_output(name, value),
        session_id: spec_session(value),
        cwd: spec_cwd(value),
    }
}

fn is_exec_hook_name(n: &str) -> (r: bool)
    ensures
        r == is_exec_hook(n@),
{
    str_eq(n, "beforeMCPExecution") || str_eq(n, "afterMCPExecution") || str_eq(
        n,
        "afterShellExecution",
    )
}

/// The name a tool is classified by: the hook's own name for the dedicated
/// shell/MCP execution hooks, else the tool's name.
pub fn classify_name<'a>(hook_event: Option<&'a str>, tool_name: &'a str) -> (r: &'a str)
    ensures
        r@ == spec_classify(
            match hook_event {
                Some(h) => Some(h@),
                None => None,
            },
            tool_name@,
        ),
{
    match hook_event {
        Some(h) => if is_exec_hook_name(h) {
            h
        } else {
            tool_name
        },
        None => tool_name,
    }
}

fn server_name(value: &Json) -> (r: String)
    ensures
        r@ == server_of(*value),
{
    match value.str_at("mcp_server_name") {
        Some(s) => s,
        None => "mcp".to_owned(),
    }
}

fn map_tool_name(name: &str, value: &Json) -> (r: ToolKind)
    ensures
        r.sv() == spec_map_tool(name@, *value),
{
    if value.has("mcp_server_name") && !is_exec_hook_name(name) {
        return ToolKind::Mcp { server: server_name(value), tool: name.to_owned() };
    }
    if str_eq(name, "Read") || str_eq(name, "beforeReadFile") {
        return ToolKind::Read;
    }
    if str_eq(name, "Write") || str_eq(name, "afterFileEdit") {
        return ToolKind::Write;
    }
    if str_eq(name, "Edit") {
        return ToolKind::Edit;
    }
    if str_eq(name, "Shell") || str_eq(name, "Bash") || str_eq(name, "beforeShellExecution")
        || str_eq(name, "afterShellExecution") {
        return ToolKind::Shell;
    }
    if str_eq(name, "Grep") {
        return ToolKind::Grep;
    }
    if str_eq(name, "Glob") {
        return ToolKind::Glob;
    }
    let cs = chars_of(name);
    if starts_with_lit(cs.as_slice(), "MCP:") {
        proof {
            reveal_strlit("MCP:");
        }
        let rest = sub_chars(cs.as_slice(), 4, cs.len());
        assert(rest@ == name@.skip(4));
        let tool = match find_char(rest.as_slice(), ':') {
            Some(i) => sub_chars(rest.as_slice(), i + 1, rest.len()),
            None => rest,
        };
        return ToolKind::Mcp { server: server_name(value), tool: string_from(tool.as_slice()) };
    }
    if str_eq(name, "beforeMCPExecution") || str_eq(name, "afterMCPExecution") {
        let tool = match value.str_at("tool_name") {
            Some(t) => t,
            None => "tool".to_owned(),
        };
        return ToolKind::Mcp { server: server_name(value), tool };
    }
    ToolKind::Other(name.to_owned())
}

fn cwd_of(value: &Json) -> (r: String)
    ensures
        r@ == spec_cwd(*value),
{
    match value.str_at("cwd") {
        Some(c) => {
            return c;
        },
        None => {},
    }
    match value.get("workspace_roots") {
        Some(Json::Arr(v)) => {
            if v.len() > 0 {
                match v[0].as_string() {
                    Some(r) => {
                        return r;
                    },
                    None => {},
                }
            }
        },
        _ => {},
    }
    ".".to_owned()
}

fn session_of(value: &Json) -> (r: String)
    ensures
        r@ == spec_session(*value),
{
    let id = match value.get("conversation_id") {
        Some(j) => j.as_string(),
        None => value.str_at("tool_use_id"),
    };
    match id {
        Some(s) => s,
        None => "unknown".to_owned(),
    }
}

fn post_output(event_name: &str, value: &Json) -> (r: Option<String>)
    ensures
        opt_view(r) == spec_post_output(event_name@, *value),
{
    if str_eq(event_name, "postToolUse") {
        value.str_at("tool_output")
    } else if str_eq(event_name, "afterShellExecution") {
        value.str_at("output")
    } else if str_eq(event_name, "afterMCPExecution") {
        value.str_at("result_json")
    } else {
        None
    }
}

fn first_some(a: Option<String>, b: Option<String>) -> (r: Option<String>)
    ensures
        opt_view(r) == or_else(opt_view(a), opt_view(b)),
{
    match a {
        Some(x) => Some(x),
        None => b,
    }
}

fn normalize_args(value: Json) -> (r: NormalizedArgs)
    ensures
        r.sv() == spec_args(value),
{
    let top_cmd = value.str_at("command");
    let top_path = value.str_at("file_path");
    let input = value.take("tool_input");
    match input {
        Some(obj) => {
            if obj.is_object() {
                let p = first_some(
                    obj.str_at("path"),
                    first_some(obj.str_at("file_path"), obj.str_at("target_file")),
                );
                let path = first_some(p, top_path);
                let offset = obj.u64_at("offset");
                let limit = obj.u64_at("limit");
                let command = first_some(top_cmd, obj.str_at("command"));
                let pattern = first_some(
                    obj.str_at("pattern"),
                    first_some(obj.str_at("glob_pattern"), obj.str_at("glob")),
                );
                NormalizedArgs {
                    path,
                    offset,
                    limit,
                    command,
                    cwd: None,
                    pattern,
                    raw_input: Some(obj),
                }
            } else {
                NormalizedArgs {
                    path: top_path,
                    offset: None,
                    limit: None,
                    command: top_cmd,
                    cwd: None,
                    pattern: None,
                    raw_input: None,
                }
            }
        },
        None => NormalizedArgs {
            path: top_path,
            offset: None,
            limit: None,
            command: top_cmd,
            cwd: None,
            pattern: None,
            raw_input: None,
        },
    }
}

/// The event a Cursor payload describes.
pub fn parse(event_name: &str, value: Json) -> (r: ToolEvent)
    ensures
        r.sv() == spec_parse(event_name@, value),
{
    let cs = chars_of(event_name);
    let phase = if starts_with_lit(cs.as_slice(), "post") || starts_with_lit(cs.as_slice(), "after") {
        Phase::Post
    } else {
        Phase::Pre
    };
    let hook_event = value.str_at("hook_event_name");
    let tool_name = match value.str_at("tool_name") {
        Some(t) => t,
        None => "".to_owned(),
    };
    let he: Option<&str> = match &hook_event {
        Some(h) => Some(h.as_str()),
        None => None,
    };
    let classify = classify_name(he, tool_name.as_str());
    let tool = map_tool_name(classify, &value);
    let cwd = cwd_of(&value);
    let session_id = session_of(&value);
    let output = post_output(event_name, &value);
    let args = normalize_args(value);
    ToolEvent { harness: Harness::Cursor, phase, tool, args, output, session_id, cwd }
}

// ---------------------------------------------------------------------
// Rendering
// ---------------------------------------------------------------------

/// Hooks whose reply carries a permission.
pub open spec fn is_permission_hook(name: Seq<char>) -> bool {
    name == "preToolUse"@ || name == "beforeShellExecution"@
}

/// What the reply to hook `name` for the applied decision `d` is:
/// permission hooks get `allow` / `deny` (with the message), a rewrite
/// gets `allow` with the new input, a replaced output reaches the model
/// only through `postToolUse`; everything else is `{}`.
pub open spec fn spec_render(name: Seq<char>, d: Decision, r: CursorReply) -> bool {
    match d {
        Decision::Allow => if is_permission_hook(name) {
            r matches CursorReply::PreToolUse { permission, agent_message, updated_input }
                && permission@ == "allow"@ && agent_message is None && updated_input is None
        } else {
            r is Empty
        },
        Decision::Deny { agent_message: m, .. } => if is_permission_hook(name) {
            r matches CursorReply::PreToolUse { permission, agent_message, updated_input }
                && permission@ == "deny"@ && opt_view(agent_message) == Some(m@)
                && updated_input is None
        } else {
            r is Empty
        },
        Decision::Rewrite { updated_input: u, .. } => r matches CursorReply::PreToolUse {
            permission,
            agent_message,
            updated_input,
        } && permission@ == "allow"@ && agent_message is None && updated_input == Some(u),
        Decision::ReplaceOutput { text, .. } => if name == "postToolUse"@ {
            r matches CursorReply::PostToolUse { updated_mcp_tool_output, additional_context }
                && additional_context is None && (match updated_mcp_tool_output {
                Some(j) => text_content(j, text@),
                None => false,
            })
        } else {
            r is Empty
        },
    }
}

fn is_permission_hook_name(n: &str) -> (r: bool)
    ensures
        r == is_permission_hook(n@),
{
    str_eq(n, "preToolUse") || str_eq(n, "beforeShellExecution")
}

/// The reply for the applied decision of `outcome`.
pub fn render(event_name: &str, outcome: PolicyOutcome) -> (r: CursorReply)
    ensures
        spec_render(event_name@, outcome.applied, r),
{
    match outcome.applied {
        Decision::Allow => if is_permission_hook_name(event_name) {
            CursorReply::PreToolUse {
                permission: "allow".to_owned(),
                agent_message: None,
                updated_input: None,
            }
        } else {
            CursorReply::Empty
        },
        Decision::Deny { agent_message, .. } => if is_permission_hook_name(event_name) {
            CursorReply::PreToolUse {
                permission: "deny".to_owned(),
                agent_message: Some(agent_message),
                updated_input: None,
            }
        } else {
            CursorReply::Empty
        },
        Decision::Rewrite { updated_input, .. } => CursorReply::PreToolUse {
            permission: "allow".to_owned(),
            agent_message: None,
            updated_input: Some(updated_input),
        },
        Decision::ReplaceOutput { text, .. } => if str_eq(event_name, "postToolUse") {
            CursorReply::PostToolUse {
                updated_mcp_tool_output: Some(text_content_json(text)),
                additional_context: None,
            }
        } else {
            CursorReply::Empty
        },
    }
}

// ---------------------------------------------------------------------
// Laws
// ---------------------------------------------------------------------

/// Cursor tool names map to their kinds. For a payload that names no MCP
/// server and whose hook is not one of the dedicated execution hooks,
/// the event's tool is read from `tool_name`: `Read` / `beforeReadFile`
/// are reads, `Write` / `afterFileEdit` writes, `Edit` an edit, `Shell`,
/// `Bash`, `beforeShellExecution` and `afterShellExecution` shell
/// commands, `Grep` a grep and `Glob` a glob; a name outside this table
/// that does not start with `MCP:` is kept as `Other`. With an MCP server
/// named, any such tool name is an MCP tool of that server.
pub proof fn law_cursor_tool_names(name: Seq<char>, value: Json, tool_name: Seq<char>)
    requires
        str_field(value, "tool_name"@) == Some(tool_name),
        match str_field(value, "hook_event_name"@) {
            Some(h) => h != "beforeMCPExecution"@ && h != "afterMCPExecution"@ && h
                != "afterShellExecution"@,
            None => true,
        },
    ensures
        ({
            let t = spec_parse(name, value).tool;
            &&& field(value, "mcp_server_name"@) is None ==> {
                &&& (tool_name == "Read"@ || tool_name == "beforeReadFile"@) ==> t
                    == SToolKind::Read
                &&& (tool_name == "Write"@ || tool_name == "afterFileEdit"@) ==> t
                    == SToolKind::Write
                &&& tool_name == "Edit"@ ==> t == SToolKind::Edit
                &&& (tool_name == "Shell"@ || tool_name == "Bash"@ || tool_name
                    == "beforeShellExecution"@ || tool_name == "afterShellExecution"@) ==> t
                    == SToolKind::Shell
                &&& tool_name == "Grep"@ ==> t == SToolKind::Grep
                &&& tool_name == "Glob"@ ==> t == SToolKind::Glob
                &&& (tool_name != "Read"@ && tool_name != "beforeReadFile"@ && tool_name
                    != "Write"@ && tool_name != "afterFileEdit"@ && tool_name != "Edit"@
                    && tool_name != "Shell"@ && tool_name != "Bash"@ && tool_name
                    != "beforeShellExecution"@ && tool_name != "afterShellExecution"@
                    && tool_name != "Grep"@ && tool_name != "Glob"@ && tool_name
                    != "beforeMCPExecution"@ && tool_name != "afterMCPExecution"@
                    && !starts_with(tool_name, "MCP:"@)) ==> t == SToolKind::Other(tool_name)
            }
            &&& (str_field(value, "mcp_server_name"@) matches Some(server) && tool_name
                != "beforeMCPExecution"@ && tool_name != "afterMCPExecution"@ && tool_name
                != "afterShellExecution"@) ==> t == SToolKind::Mcp(
                str_field(value, "mcp_server_name"@)->0,
                tool_name,
            )
        }),
{
    reveal_strlit("Read");
    reveal_strlit("beforeReadFile");
    reveal_strlit("Write");
    reveal_strlit("afterFileEdit");
    reveal_strlit("Edit");
    reveal_strlit("Shell");
    reveal_strlit("Bash");
    reveal_strlit("beforeShellExecution");
    reveal_strlit("afterShellExecution");
    reveal_strlit("Grep");
    reveal_strlit("Glob");
    reveal_strlit("MCP:");
    reveal_strlit("beforeMCPExecution");
    reveal_strlit("afterMCPExecution");
    assert("Read"@[0] == 'R' && "Read"@[1] == 'e' && "Read"@.len() == 4);
    assert("beforeReadFile"@[0] == 'b' && "beforeReadFile"@[1] == 'e' && "beforeReadFile"@.len() == 14);
    assert("Write"@[0] == 'W' && "Write"@[1] == 'r' && "Write"@.len() == 5);
    assert("afterFileEdit"@[0] == 'a' && "afterFileEdit"@[1] == 'f' && "afterFileEdit"@.len() == 13);
    assert("Edit"@[0] == 'E' && "Edit"@[1] == 'd' && "Edit"@.len() == 4);
    assert("Shell"@[0] == 'S' && "Shell"@[1] == 'h' && "Shell"@.len() == 5);
    assert("Bash"@[0] == 'B' && "Bash"@[1] == 'a' && "Bash"@.len() == 4);
    assert("beforeShellExecution"@[0] == 'b' && "beforeShellExecution"@[1] == 'e' && "beforeShellExecution"@.len() == 20);
    assert("afterShellExecution"@[0] == 'a' && "afterShellExecution"@[1] == 'f' && "afterShellExecution"@.len() == 19);
    assert("Grep"@[0] == 'G' && "Grep"@[1] == 'r' && "Grep"@.len() == 4);
    assert("Glob"@[0] == 'G' && "Glob"@[1] == 'l' && "Glob"@.len() == 4);
    assert("MCP:"@[0] == 'M' && "MCP:"@[1] == 'C' && "MCP:"@.len() == 4);
    assert("beforeMCPExecution"@[0] == 'b' && "beforeMCPExecution"@[1] == 'e' && "beforeMCPExecution"@.len() == 18);
    assert("afterMCPExecution"@[0] == 'a' && "afterMCPExecution"@[1] == 'f' && "afterMCPExecution"@.len() == 17);
    let he = str_field(value, "hook_event_name"@);
    assert(spec_classify(he, or_lit(str_field(value, "tool_name"@), ""@)) == tool_name);
    if tool_name.len() == 4 && tool_name[0] != 'M' {
        assert(!starts_with(tool_name, "MCP:"@)) by {
            if starts_with(tool_name, "MCP:"@) {
                assert(tool_name.take(4)[0] == tool_name[0]);
            }
        }
    }
    if tool_name.len() != 4 || tool_name[0] == 'M' {
        if starts_with(tool_name, "MCP:"@) {
            assert(tool_name.take(4)[0] == tool_name[0]);
            assert(tool_name.take(4)[1] == tool_name[1]);
        }
    }
}

} // verus!
