//! Telemetry rows: digests only, never raw paths or commands.

use vstd::prelude::*;

use crate::digest::{sha256_hex, sha256_hex_of};
use crate::event::{Harness, Phase, SToolKind, ToolEvent, ToolKind};
use crate::json::opt_view;
use crate::policy::{Decision, PolicyMode, PolicyOutcome, SDecision};
use crate::text::{chars_of, push_str_chars, string_from, utf8_len};

verus! {

/// One telemetry row.
#[derive(Debug, Clone, PartialEq, Eq)]
pub struct TelemetryRow {
    /// Seconds since the Unix epoch.
    pub ts: u64,
    /// Harness label.
    pub harness: String,
    /// Session id.
    pub session_id: String,
    /// `pre` or `post`.
    pub phase: String,
    /// Tool label.
    pub tool: String,
    /// SHA-256 of the path argument.
    pub path_digest: Option<String>,
    /// SHA-256 of the command argument.
    pub cmd_digest: Option<String>,
    /// Bytes of the raw tool input as JSON text.
    pub input_chars: u64,
    /// Bytes of the tool output.
    pub output_chars: u64,
    /// Label of the raw decision.
    pub decision: String,
    /// Rule behind the decision.
    pub rule_id: Option<String>,
    /// `enforce` or `observe`.
    pub mode: String,
}

/// Label of a harness.
pub open spec fn harness_label(h: Harness) -> Seq<char> {
    match h {
        Harness::Cursor => "cursor"@,
        Harness::Muse => "muse"@,
        Harness::Opencode => "opencode"@,
        Harness::Pi => "pi"@,
    }
}

/// Label of a tool kind.
pub open spec fn tool_label(t: SToolKind) -> Seq<char> {
    match t {
        SToolKind::Read => "read"@,
        SToolKind::Edit => "edit"@,
        SToolKind::Write => "write"@,
        SToolKind::Shell => "shell"@,
        SToolKind::Grep => "grep"@,
        SToolKind::Glob => "glob"@,
        SToolKind::Mcp(server, tool) => "mcp:"@ + server + ":"@ + tool,
        SToolKind::Other(n) => "other:"@ + n,
    }
}

/// Label of a decision.
pub open spec fn decision_label(d: SDecision) -> Seq<char> {
    match d {
        SDecision::Allow => "allow"@,
        SDecision::Deny(_, _) => "deny"@,
        SDecision::Rewrite(_, _) => "rewrite"@,
        SDecision::ReplaceOutput(_, _) => "replace_output"@,
    }
}

/// Label of a mode.
pub open spec fn mode_label(m: PolicyMode) -> Seq<char> {
    match m {
        PolicyMode::Enforce => "enforce"@,
        PolicyMode::Observe => "observe"@,
    }
}

/// Label of a phase.
pub open spec fn phase_label(p: Phase) -> Seq<char> {
    match p {
        Phase::Pre => "pre"@,
        Phase::Post => "post"@,
    }
}

/// The digest of an optional text.
pub open spec fn opt_digest(o: Option<Seq<char>>) -> Option<Seq<char>> {
    match o {
        Some(t) => Some(sha256_hex_of(t)),
        None => None,
    }
}

fn lit(s: &str) -> (r: String)
    ensures
        r@ == s@,
{
    string_from(chars_of(s).as_slice())
}

/// Label of a harness.
pub fn harness_name(h: Harness) -> (r: String)
    ensures
        r@ == harness_label(h),
{
    match h {
        Harness::Cursor => lit("cursor"),
        Harness::Muse => lit("muse"),
        Harness::Opencode => lit("opencode"),
        Harness::Pi => lit("pi"),
    }
}

/// Label of a tool kind (`mcp:server:tool`, `other:name`, or the kind).
pub fn tool_name(t: &ToolKind) -> (r: String)
    ensures
        r@ == tool_label(t.sv()),
{
    match t {
        ToolKind::Read => lit("read"),
        ToolKind::Edit => lit("edit"),
        ToolKind::Write => lit("write"),
        ToolKind::Shell => lit("shell"),
        ToolKind::Grep => lit("grep"),
        ToolKind::Glob => lit("glob"),
        ToolKind::Mcp { server, tool } => {
            let mut out: Vec<char> = Vec::new();
            push_str_chars(&mut out, "mcp:");
            push_str_chars(&mut out, server.as_str());
            push_str_chars(&mut out, ":");
            push_str_chars(&mut out, tool.as_str());
            string_from(out.as_slice())
        },
        ToolKind::Other(n) => {
            let mut out: Vec<char> = Vec::new();
            push_str_chars(&mut out, "other:");
            push_str_chars(&mut out, n.as_str());
            string_from(out.as_slice())
        },
    }
}

/// Label of a decision.
pub fn decision_name(d: &Decision) -> (r: String)
    ensures
        r@ == decision_label(d.sv()),
{
    match d {
        Decision::Allow => lit("allow"),
        Decision::Deny { .. } => lit("deny"),
        Decision::Rewrite { .. } => lit("rewrite"),
        Decision::ReplaceOutput { .. } => lit("replace_output"),
    }
}

fn digest_of(o: &Option<String>) -> (r: Option<String>)
    ensures
        opt_view(r) == opt_digest(opt_view(*o)),
{
    match o {
        Some(t) => Some(sha256_hex(t.as_str())),
        None => None,
    }
}

/// Builds a row from an event and its outcome: the path and the command
/// only as SHA-256 digests, the output as its byte length. `ts` is the
/// time of the event and `input_chars` the byte length of the raw tool
/// input as JSON text (0 when there is none).
pub fn row_from(
    event: &ToolEvent,
    outcome: &PolicyOutcome,
    mode: PolicyMode,
    ts: u64,
    input_chars: u64,
) -> (r: TelemetryRow)
    ensures
        r.ts == ts,
        r.harness@ == harness_label(event.harness),
        r.session_id@ == event.session_id@,
        r.phase@ == phase_label(event.phase),
        r.tool@ == tool_label(event.tool.sv()),
        opt_view(r.path_digest) == opt_digest(opt_view(event.args.path)),
        opt_view(r.cmd_digest) == opt_digest(opt_view(event.args.command)),
        r.input_chars == input_chars,
        r.output_chars == (match event.output {
            Some(o) => utf8_len(o@),
            None => 0,
        }),
        r.decision@ == decision_label(outcome.raw.sv()),
        opt_view(r.rule_id) == opt_view(outcome.rule_id),
        r.mode@ == mode_label(mode),
{
    let output_chars: u64 = match &event.output {
        Some(o) => o.as_str().as_bytes().len() as u64,
        None => 0,
    };
    let rule_id = match &outcome.rule_id {
        Some(r) => Some(r.clone()),
        None => None,
    };
    TelemetryRow {
        ts,
        harness: harness_name(event.harness),
        session_id: event.session_id.clone(),
        phase: match event.phase {
            Phase::Pre => lit("pre"),
            Phase::Post => lit("post"),
        },
        tool: tool_name(&event.tool),
        path_digest: digest_of(&event.args.path),
        cmd_digest: digest_of(&event.args.command),
        input_chars,
        output_chars,
        decision: decision_name(&outcome.raw),
        rule_id,
        mode: match mode {
            PolicyMode::Enforce => lit("enforce"),
            PolicyMode::Observe => lit("observe"),
        },
    }
}

} // verus!
