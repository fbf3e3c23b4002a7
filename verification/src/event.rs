//! Normalized harness tool events (adapter input to the policy engine).

use vstd::prelude::*;

use crate::json::{opt_view, Json};

verus! {

/// Which harness produced the event.
#[derive(Debug, Clone, Copy, PartialEq, Eq)]
pub enum Harness {
    /// Cursor Agent hooks.
    Cursor,
    /// Muse command hooks.
    Muse,
    /// OpenCode plugin hooks.
    Opencode,
    /// Pi extension events.
    Pi,
}

/// Hook phase.
#[derive(Debug, Clone, Copy, PartialEq, Eq)]
pub enum Phase {
    /// Before the tool runs.
    Pre,
    /// After the tool ran.
    Post,
}

/// Normalized tool kind.
#[derive(Debug, Clone, PartialEq, Eq)]
pub enum ToolKind {
    /// File read.
    Read,
    /// In-place edit.
    Edit,
    /// File write.
    Write,
    /// Shell command.
    Shell,
    /// Content search.
    Grep,
    /// File-name search.
    Glob,
    /// A tool of an MCP server.
    Mcp {
        /// Server name.
        server: String,
        /// Tool name.
        tool: String,
    },
    /// Anything else, by name.
    Other(String),
}

/// A tool kind as a specification value.
pub enum SToolKind {
    /// File read.
    Read,
    /// In-place edit.
    Edit,
    /// File write.
    Write,
    /// Shell command.
    Shell,
    /// Content search.
    Grep,
    /// File-name search.
    Glob,
    /// MCP server and tool.
    Mcp(Seq<char>, Seq<char>),
    /// Anything else.
    Other(Seq<char>),
}

impl ToolKind {
    /// The kind as a specification value.
    pub open spec fn sv(&self) -> SToolKind {
        match self {
            ToolKind::Read => SToolKind::Read,
            ToolKind::Edit => SToolKind::Edit,
            ToolKind::Write => SToolKind::Write,
            ToolKind::Shell => SToolKind::Shell,
            ToolKind::Grep => SToolKind::Grep,
            ToolKind::Glob => SToolKind::Glob,
            ToolKind::Mcp { server, tool } => SToolKind::Mcp(server@, tool@),
            ToolKind::Other(n) => SToolKind::Other(n@),
        }
    }
}

/// Normalized arguments extracted from harness payloads.
#[derive(Debug, PartialEq, Eq)]
pub struct NormalizedArgs {
    /// File or directory path.
    pub path: Option<String>,
    /// First line to read.
    pub offset: Option<u64>,
    /// Lines to read.
    pub limit: Option<u64>,
    /// Shell command line.
    pub command: Option<String>,
    /// Working directory.
    pub cwd: Option<String>,
    /// Search pattern.
    pub pattern: Option<String>,
    /// Raw tool input when useful for rewrites.
    pub raw_input: Option<Json>,
}

/// Normalized arguments as a specification value.
pub struct SArgs {
    /// File or directory path.
    pub path: Option<Seq<char>>,
    /// First line to read.
    pub offset: Option<u64>,
    /// Lines to read.
    pub limit: Option<u64>,
    /// Shell command line.
    pub command: Option<Seq<char>>,
    /// Working directory.
    pub cwd: Option<Seq<char>>,
    /// Search pattern.
    pub pattern: Option<Seq<char>>,
    /// Raw tool input.
    pub raw_input: Option<Json>,
}

impl NormalizedArgs {
    /// The arguments as a specification value.
    pub open spec fn sv(&self) -> SArgs {
        SArgs {
            path: opt_view(self.path),
            offset: self.offset,
            limit: self.limit,
            command: opt_view(self.command),
            cwd: opt_view(self.cwd),
            pattern: opt_view(self.pattern),
            raw_input: self.raw_input,
        }
    }
}

impl Default for NormalizedArgs {
    fn default() -> (r: NormalizedArgs)
        ensures
            r.path is None,
            r.offset is None,
            r.limit is None,
            r.command is None,
            r.cwd is None,
            r.pattern is None,
            r.raw_input is None,
    {
        NormalizedArgs {
            path: None,
            offset: None,
            limit: None,
            command: None,
            cwd: None,
            pattern: None,
            raw_input: None,
        }
    }
}

/// One policy decision input.
#[derive(Debug, PartialEq, Eq)]
pub struct ToolEvent {
    /// Harness that sent it.
    pub harness: Harness,
    /// Before or after the tool.
    pub phase: Phase,
    /// Tool kind.
    pub tool: ToolKind,
    /// Normalized arguments.
    pub args: NormalizedArgs,
    /// Tool output (after-hooks).
    pub output: Option<String>,
    /// Session id.
    pub session_id: String,
    /// Working directory.
    pub cwd: String,
}

/// A tool event as a specification value.
pub struct SToolEvent {
    /// Harness that sent it.
    pub harness: Harness,
    /// Before or after the tool.
    pub phase: Phase,
    /// Tool kind.
    pub tool: SToolKind,
    /// Normalized arguments.
    pub args: SArgs,
    /// Tool output.
    pub output: Option<Seq<char>>,
    /// Session id.
    pub session_id: Seq<char>,
    /// Working directory.
    pub cwd: Seq<char>,
}

impl ToolEvent {
    /// The event as a specification value.
    pub open spec fn sv(&self) -> SToolEvent {
        SToolEvent {
            harness: self.harness,
            phase: self.phase,
            tool: self.tool.sv(),
            args: self.args.sv(),
            output: opt_view(self.output),
            session_id: self.session_id@,
            cwd: self.cwd@,
        }
    }
}

} // verus!
