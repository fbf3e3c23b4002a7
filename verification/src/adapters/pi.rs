//! Pi extension tool-call events (`tool_call` / `tool_result`).

use vstd::prelude::*;

use crate::adapters::or_lit;
use crate::event::{Harness, NormalizedArgs, Phase, SArgs, SToolEvent, SToolKind, ToolEvent, ToolKind};
use crate::json::{field, opt_view, str_field, str_value, Json};
use crate::policy::{Decision, PolicyOutcome};
use crate::text::{
    ascii_lower, ascii_lower_chars, chars_of, contains_lit, contains_seq, eq_lit, join, push_join,
    string_from,
};

verus! {

/// Pi reply.
#[derive(Debug, PartialEq, Eq)]
pub enum PiReply {
    /// `{}`.
    Empty,
    /// `{"cancel": true, "message": message}`.
    Cancel {
        /// Message for the agent.
        message: String,
    },
    /// `{"input": input}`.
    Input {
        /// Rewritten tool input.
        input: Json,
    },
    /// `{"content": [{"type": "text", "text": text}]}`.
    Content {
        /// Replacement output.
        text: String,
    },
}

/// The tool kind for a lower-cased tool name.
pub open spec fn spec_tool(lower: Seq<char>) -> SToolKind {
    if lower == "read"@ {
        SToolKind::Read
    } else if lower == "write"@ || lower == "edit"@ {
        SToolKind::Edit
    } else if lower == "bash"@ || lower == "shell"@ || lower == "shelltool"@ {
        SToolKind::Shell
    } else if lower == "grep"@ {
        SToolKind::Grep
    } else if lower == "glob"@ {
        SToolKind::Glob
    } else {
        SToolKind::Other(lower)
    }
}

/// The `text` strings of the content parts, in order.
pub open spec fn content_texts(parts: Seq<Json>) -> Seq<Seq<char>>
    decreases parts.len(),
{
    if parts.len() == 0 {
        Seq::empty()
    } else {
        let rest = content_texts(parts.drop_last());
        match str_field(parts.last(), "text"@) {
            Some(t) => rest.push(t),
            None => rest,
        }
    }
}

/// The tool output: the text parts of `content`, one per line.
pub open spec fn spec_output(value: Json) -> Option<Seq<char>> {
    match field(value, "content"@) {
        Some(Json::Arr(ps)) => Some(join(content_texts(ps@), "\n"@)),
        _ => None,
    }
}

/// Normalized arguments: `details` is the raw input, and its `command`.
pub open spec fn spec_args(details: Option<Json>) -> SArgs {
    SArgs {
        path: None,
        offset: None,
        limit: None,
        command: match details {
            Some(d) => str_field(d, "command"@),
            None => None,
        },
        cwd: None,
        pattern: None,
        raw_input: details,
    }
}

/// Session id: `sessionId` when present (it must be a string), else
/// `toolCallId`, else `unknown`.
pub open spec fn spec_session(value: Json) -> Seq<char> {
    let id = match field(value, "sessionId"@) {
        Some(j) => str_value(Some(j)),
        None => str_field(value, "toolCallId"@),
    };
    or_lit(id, "unknown"@)
}

/// The event a Pi payload describes.
pub open spec fn spec_parse(name: Seq<char>, value: Json) -> SToolEvent {
    SToolEvent {
        harness: Harness::Pi,
        phase: if contains_seq(name, "result"@) || contains_seq(name, "after"@) {
            Phase::Post
        } else {
            Phase::Pre
        },
        tool: spec_tool(ascii_lower(or_lit(str_field(value, "toolName"@), ""@))),
        args: spec_args(field(value, "details"@)),
        output: spec_output(value),
        session_id: spec_session(value),
        cwd: or_lit(str_field(value, "cwd"@), "."@),
    }
}

fn tool_kind(lower: &[char]) -> (r: ToolKind)
    ensures
        r.sv() == spec_tool(lower@),
{
    if eq_lit(lower, "read") {
        ToolKind::Read
    } else if eq_lit(lower, "write") || eq_lit(lower, "edit") {
        ToolKind::Edit
    } else if eq_lit(lower, "bash") || eq_lit(lower, "shell") || eq_lit(lower, "shelltool") {
        ToolKind::Shell
    } else if eq_lit(lower, "grep") {
        ToolKind::Grep
    } else if eq_lit(lower, "glob") {
        ToolKind::Glob
    } else {
        ToolKind::Other(string_from(lower))
    }
}

fn output_of(value: &Json) -> (r: Option<String>)
    ensures
        opt_view(r) == spec_output(*value),
{
    match value.get("content") {
        Some(Json::Arr(ps)) => {
            let mut texts: Vec<Vec<char>> = Vec::new();
            let mut i: usize = 0;
            while i < ps.len()
                invariant
                    i <= ps.len(),
                    texts@.map_values(|v: Vec<char>| v@) == content_texts(ps@.take(i as int)),
                decreases ps.len() - i,
            {
                assert(ps@.take(i + 1).drop_last() == ps@.take(i as int));
                let ghost before = texts@;
                match ps[i].str_at("text") {
                    Some(t) => {
                        texts.push(chars_of(t.as_str()));
                        assert(texts@.map_values(|v: Vec<char>| v@) =~= before.map_values(
                            |v: Vec<char>| v@,
                        ).push(t@));
                    },
                    None => {},
                }
                i = i + 1;
            }
            assert(ps@.take(ps.len() as int) == ps@);
            let mut out: Vec<char> = Vec::new();
            let nl: Vec<char> = chars_of("\n");
            push_join(&mut out, texts.as_slice(), nl.as_slice());
            Some(string_from(out.as_slice()))
        },
        _ => None,
    }
}

/// The event a Pi payload describes.
pub fn parse(event_name: &str, value: Json) -> (r: ToolEvent)
    ensures
        r.sv() == spec_parse(event_name@, value),
{
    let en = chars_of(event_name);
    let phase = if contains_lit(en.as_slice(), "result") || contains_lit(en.as_slice(), "after") {
        Phase::Post
    } else {
        Phase::Pre
    };
    let name = match value.str_at("toolName") {
        Some(n) => n,
        None => "".to_owned(),
    };
    let lower = ascii_lower_chars(chars_of(name.as_str()).as_slice());
    let tool = tool_kind(lower.as_slice());
    let output = output_of(&value);
    let id = match value.get("sessionId") {
        Some(j) => j.as_string(),
        None => value.str_at("toolCallId"),
    };
    let session_id = match id {
        Some(s) => s,
        None => "unknown".to_owned(),
    };
    let cwd = match value.str_at("cwd") {
        Some(c) => c,
        None => ".".to_owned(),
    };
    let details = value.take("details");
    let command = match &details {
        Some(d) => d.str_at("command"),
        None => None,
    };
    let args = NormalizedArgs {
        path: None,
        offset: None,
        limit: None,
        command,
        cwd: None,
        pattern: None,
        raw_input: details,
    };
    ToolEvent { harness: Harness::Pi, phase, tool, args, output, session_id, cwd }
}

/// What the reply for the applied decision `d` is.
pub open spec fn spec_render(d: Decision, r: PiReply) -> bool {
    match d {
        Decision::Allow => r is Empty,
        Decision::Deny { agent_message, .. } => r matches PiReply::Cancel { message }
            && message@ == agent_message@,
        Decision::Rewrite { updated_input, .. } => r matches PiReply::Input { input }
            && input == updated_input,
        Decision::ReplaceOutput { text, .. } => r matches PiReply::Content { text: t }
            && t@ == text@,
    }
}

/// The reply for the applied decision of `outcome` (the same for every
/// event name).
pub fn render(event_name: &str, outcome: PolicyOutcome) -> (r: PiReply)
    ensures
        spec_render(outcome.applied, r),
{
    match outcome.applied {
        Decision::Allow => PiReply::Empty,
        Decision::Deny { agent_message, .. } => PiReply::Cancel { message: agent_message },
        Decision::Rewrite { updated_input, .. } => PiReply::Input { input: updated_input },
        Decision::ReplaceOutput { text, .. } => PiReply::Content { text },
    }
}

// ---------------------------------------------------------------------
// Laws
// ---------------------------------------------------------------------

/// Pi tool names (lower-cased) map to their kinds; any other name is kept as `Other`.
pub proof fn law_tool_names(lower: Seq<char>)
    ensures
        (lower == "read"@) ==> spec_tool(lower) == SToolKind::Read,
        (lower == "write"@ || lower == "edit"@) ==> spec_tool(lower) == SToolKind::Edit,
        (lower == "bash"@ || lower == "shell"@ || lower == "shelltool"@) ==> spec_tool(lower) == SToolKind::Shell,
        (lower == "grep"@) ==> spec_tool(lower) == SToolKind::Grep,
        (lower == "glob"@) ==> spec_tool(lower) == SToolKind::Glob,
        (lower != "read"@ && lower != "write"@ && lower != "edit"@ && lower != "bash"@ && lower != "shell"@ && lower != "shelltool"@ && lower != "grep"@ && lower != "glob"@) ==> spec_tool(lower) == SToolKind::Other(lower),
{
    reveal_strlit("read");
    reveal_strlit("write");
    reveal_strlit("edit");
    reveal_strlit("bash");
    reveal_strlit("shell");
    reveal_strlit("shelltool");
    reveal_strlit("grep");
    reveal_strlit("glob");
    assert("read"@.len() == 4 && "read"@[0] == 'r' && "read"@[1] == 'e' && "read"@[2] == 'a');
    assert("write"@.len() == 5 && "write"@[0] == 'w' && "write"@[1] == 'r' && "write"@[2] == 'i');
    assert("edit"@.len() == 4 && "edit"@[0] == 'e' && "edit"@[1] == 'd' && "edit"@[2] == 'i');
    assert("bash"@.len() == 4 && "bash"@[0] == 'b' && "bash"@[1] == 'a' && "bash"@[2] == 's');
    assert("shell"@.len() == 5 && "shell"@[0] == 's' && "shell"@[1] == 'h' && "shell"@[2] == 'e');
    assert("shelltool"@.len() == 9 && "shelltool"@[0] == 's' && "shelltool"@[1] == 'h' && "shelltool"@[2] == 'e');
    assert("grep"@.len() == 4 && "grep"@[0] == 'g' && "grep"@[1] == 'r' && "grep"@[2] == 'e');
    assert("glob"@.len() == 4 && "glob"@[0] == 'g' && "glob"@[1] == 'l' && "glob"@[2] == 'o');
}

} // verus!
