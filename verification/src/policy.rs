//! Rule-based policy: a pure `decide` over normalized [`ToolEvent`]s.
//!
//! The two facts that need the host (how many lines a file has, where a
//! long output was archived) come in as [`HostFacts`]; [`read_target`] and
//! [`needs_archive`] say when the caller has to fetch them.

use vstd::prelude::*;

use crate::digest::{sha256_hex, sha256_hex_of};
use crate::event::{NormalizedArgs, Phase, SArgs, SToolEvent, SToolKind, ToolEvent, ToolKind};
use crate::gate::{prefixes_view, rules_verdict, spec_rules_verdict, strs_view, Rules, SVerdict, Verdict};
use crate::json::{opt_view, Json};
use crate::path::is_abs;
use crate::read;
use crate::run::{clip_utf8, clipped};
use crate::text::{
    ascii_lower, char_is_whitespace, chars_of, dec, dec_chars, eq_lit, has_char, is_ws, push_chars,
    push_str_chars, string_from, trim, trim_chars, ascii_lower_chars, utf8_len,
};

verus! {

/// Enforce applies decisions; observe only records them.
#[derive(Debug, Clone, Copy, PartialEq, Eq, Structural)]
pub enum PolicyMode {
    /// Apply decisions.
    Enforce,
    /// Record decisions, apply none.
    Observe,
}

impl Default for PolicyMode {
    fn default() -> (r: PolicyMode)
        ensures
            r == PolicyMode::Enforce,
    {
        PolicyMode::Enforce
    }
}

/// Whole-file read cap.
#[derive(Debug, Clone, PartialEq, Eq)]
pub struct ReadRule {
    /// Largest file (in lines) that may be read whole.
    pub max_lines: u64,
}

impl Default for ReadRule {
    fn default() -> (r: ReadRule)
        ensures
            r.max_lines == read::WHOLE_FILE_LIMIT_LINES,
    {
        ReadRule { max_lines: default_max_lines() }
    }
}

/// The default whole-file read cap.
pub fn default_max_lines() -> (r: u64)
    ensures
        r == read::WHOLE_FILE_LIMIT_LINES,
{
    read::WHOLE_FILE_LIMIT_LINES
}

/// Whether a search must name a path scope.
#[derive(Debug, Clone, PartialEq, Eq)]
pub struct ScopeRule {
    /// Refuse searches without a path scope.
    pub require_path_scope: bool,
}

impl Default for ScopeRule {
    fn default() -> (r: ScopeRule)
        ensures
            !r.require_path_scope,
    {
        ScopeRule { require_path_scope: false }
    }
}

/// Output clipping threshold.
#[derive(Debug, Clone, PartialEq, Eq)]
pub struct ClipRule {
    /// Outputs of at least this many bytes are clipped.
    pub min_bytes: usize,
}

impl Default for ClipRule {
    fn default() -> (r: ClipRule)
        ensures
            r.min_bytes == 4096,
    {
        ClipRule { min_bytes: default_min_bytes() }
    }
}

/// The default clipping threshold.
pub fn default_min_bytes() -> (r: usize)
    ensures
        r == 4096,
{
    4096
}

/// Shell command rules.
#[derive(Debug, Clone, PartialEq, Eq)]
pub struct ShellRule {
    /// Allow and deny prefixes.
    pub rules: Rules,
}

impl Default for ShellRule {
    fn default() -> (r: ShellRule)
        ensures
            prefixes_view(r.rules.allow@) == crate::gate::default_allow(),
            prefixes_view(r.rules.deny@) == crate::gate::default_deny(),
    {
        ShellRule { rules: Rules::default_rules() }
    }
}

/// Full policy (file on disk + compiled defaults).
#[derive(Debug, Clone, PartialEq, Eq)]
pub struct Policy {
    /// Enforce or observe.
    pub mode: PolicyMode,
    /// Read cap.
    pub read: ReadRule,
    /// Glob scope rule.
    pub glob: ScopeRule,
    /// Grep scope rule.
    pub grep: ScopeRule,
    /// Output clipping.
    pub clip: ClipRule,
    /// Shell rules.
    pub shell: ShellRule,
}

impl Default for Policy {
    fn default() -> (r: Policy)
        ensures
            r.mode == PolicyMode::Enforce,
            r.read.max_lines == read::WHOLE_FILE_LIMIT_LINES,
            r.glob.require_path_scope,
            !r.grep.require_path_scope,
            r.clip.min_bytes == 4096,
            prefixes_view(r.shell.rules.allow@) == crate::gate::default_allow(),
            prefixes_view(r.shell.rules.deny@) == crate::gate::default_deny(),
    {
        Policy {
            mode: PolicyMode::Enforce,
            read: ReadRule { max_lines: read::WHOLE_FILE_LIMIT_LINES },
            glob: ScopeRule { require_path_scope: true },
            grep: ScopeRule { require_path_scope: false },
            clip: ClipRule { min_bytes: default_min_bytes() },
            shell: ShellRule::default(),
        }
    }
}

/// Policy decision before harness-specific rendering.
#[derive(Debug, PartialEq, Eq)]
pub enum Decision {
    /// Let the tool call through.
    Allow,
    /// Refuse it.
    Deny {
        /// Message for the agent.
        agent_message: String,
        /// Rule that refused.
        rule_id: String,
    },
    /// Let it through with rewritten input.
    Rewrite {
        /// The new tool input.
        updated_input: Json,
        /// Rule that rewrote.
        rule_id: String,
    },
    /// Replace the tool's output.
    ReplaceOutput {
        /// The new output.
        text: String,
        /// Rule that replaced.
        rule_id: String,
    },
}

/// A decision as a specification value.
pub enum SDecision {
    /// Let through.
    Allow,
    /// Refuse (message, rule).
    Deny(Seq<char>, Seq<char>),
    /// Rewrite (input, rule).
    Rewrite(Json, Seq<char>),
    /// Replace output (text, rule).
    ReplaceOutput(Seq<char>, Seq<char>),
}

impl Decision {
    /// The decision as a specification value.
    pub open spec fn sv(&self) -> SDecision {
        match self {
            Decision::Allow => SDecision::Allow,
            Decision::Deny { agent_message, rule_id } => SDecision::Deny(agent_message@, rule_id@),
            Decision::Rewrite { updated_input, rule_id } => SDecision::Rewrite(
                *updated_input,
                rule_id@,
            ),
            Decision::ReplaceOutput { text, rule_id } => SDecision::ReplaceOutput(text@, rule_id@),
        }
    }
}

/// Raw decision plus what to apply after mode masking.
#[derive(Debug, PartialEq, Eq)]
pub struct PolicyOutcome {
    /// What the rules decided.
    pub raw: Decision,
    /// What is applied (always `Allow` in observe mode).
    pub applied: Decision,
    /// Rule behind the raw decision.
    pub rule_id: Option<String>,
}

/// What the host knows that the policy needs.
#[derive(Debug, Clone, PartialEq, Eq)]
pub struct HostFacts {
    /// Line count of the file at [`read_target`], when it could be read.
    pub read_lines: Option<u64>,
    /// Where the full output was archived, when it was.
    pub archived_at: Option<String>,
}

/// Host facts as a specification value.
pub struct SHostFacts {
    /// Line count of the read target.
    pub read_lines: Option<u64>,
    /// Archive path.
    pub archived_at: Option<Seq<char>>,
}

impl HostFacts {
    /// The facts as a specification value.
    pub open spec fn sv(&self) -> SHostFacts {
        SHostFacts { read_lines: self.read_lines, archived_at: opt_view(self.archived_at) }
    }
}

// ---------------------------------------------------------------------
// Mode
// ---------------------------------------------------------------------

/// What an override string selects, if anything.
pub open spec fn mode_override(v: Seq<char>) -> Option<PolicyMode> {
    let t = ascii_lower(trim(v));
    if t == "enforce"@ {
        Some(PolicyMode::Enforce)
    } else if t == "observe"@ {
        Some(PolicyMode::Observe)
    } else {
        None
    }
}

/// The effective mode: an override of `enforce` or `observe` (any case,
/// surrounding whitespace ignored) wins over the file's mode.
pub open spec fn spec_resolve_mode(file_mode: PolicyMode, env_override: Option<Seq<char>>) -> PolicyMode {
    match env_override {
        Some(v) => match mode_override(v) {
            Some(m) => m,
            None => file_mode,
        },
        None => file_mode,
    }
}

/// Resolve mode: the `TOOLGATE_POLICY` value overrides the file when it is
/// `enforce` or `observe`.
pub fn resolve_mode(file: &Policy, env_override: Option<&str>) -> (r: PolicyMode)
    ensures
        r == spec_resolve_mode(
            file.mode,
            match env_override {
                Some(v) => Some(v@),
                None => None,
            },
        ),
{
    match env_override {
        Some(v) => {
            let cs = chars_of(v);
            let t = trim_chars(cs.as_slice());
            let l = ascii_lower_chars(t.as_slice());
            if eq_lit(l.as_slice(), "enforce") {
                return PolicyMode::Enforce;
            }
            if eq_lit(l.as_slice(), "observe") {
                return PolicyMode::Observe;
            }
            file.mode
        },
        None => file.mode,
    }
}

// ---------------------------------------------------------------------
// Paths and scopes
// ---------------------------------------------------------------------

/// `cwd.join(raw)`: `raw` itself when absolute (or `cwd` is empty), else
/// `raw` after `cwd` and one separator.
pub open spec fn join_path(cwd: Seq<char>, raw: Seq<char>) -> Seq<char> {
    if is_abs(raw) || cwd.len() == 0 {
        raw
    } else if cwd.last() == '/' {
        cwd + raw
    } else {
        cwd + "/"@ + raw
    }
}

/// Absolute path of `raw` relative to `cwd`.
pub fn resolve_path(cwd: &str, raw: &str) -> (r: String)
    ensures
        r@ == join_path(cwd@, raw@),
{
    let rc = chars_of(raw);
    let cc = chars_of(cwd);
    if (rc.len() > 0 && rc[0] == '/') || cc.len() == 0 {
        return string_from(rc.as_slice());
    }
    let mut out: Vec<char> = Vec::new();
    push_chars(&mut out, cc.as_slice());
    if cc[cc.len() - 1] != '/' {
        out.push('/');
    }
    push_chars(&mut out, rc.as_slice());
    proof {
        reveal_strlit("/");
        if cc@.last() == '/' {
            assert(out@ == cc@ + rc@);
        } else {
            assert(out@ =~= cc@ + "/"@ + rc@);
        }
    }
    string_from(out.as_slice())
}

/// The arguments name a path scope: a path other than the root itself, or
/// a pattern with a directory separator.
pub open spec fn has_path_scope(args: SArgs) -> bool {
    (match args.path {
        Some(p) => {
            let t = trim(p);
            t.len() > 0 && t != "."@ && t != "./"@
        },
        None => false,
    }) || (match args.pattern {
        Some(pat) => pat.contains('/') || pat.contains('\\'),
        None => false,
    })
}

/// Whether `args` name a path scope.
pub fn args_has_path_scope(args: &NormalizedArgs) -> (r: bool)
    ensures
        r == has_path_scope(args.sv()),
{
    match &args.path {
        Some(p) => {
            let cs = chars_of(p.as_str());
            let t = trim_chars(cs.as_slice());
            if t.len() > 0 && !eq_lit(t.as_slice(), ".") && !eq_lit(t.as_slice(), "./") {
                return true;
            }
        },
        None => {},
    }
    match &args.pattern {
        Some(pat) => {
            let cs = chars_of(pat.as_str());
            has_char(cs.as_slice(), '/') || has_char(cs.as_slice(), '\\')
        },
        None => false,
    }
}

// ---------------------------------------------------------------------
// Shell words
// ---------------------------------------------------------------------

/// Tokenizer state: words so far, the current word, open quotes, and a
/// pending backslash.
pub struct ShellScan {
    /// Finished words.
    pub words: Seq<Seq<char>>,
    /// Word being built.
    pub cur: Seq<char>,
    /// Inside single quotes.
    pub single: bool,
    /// Inside double quotes.
    pub double: bool,
    /// Previous character was a backslash inside double quotes.
    pub escape: bool,
}

/// The start state.
pub open spec fn scan_start() -> ShellScan {
    ShellScan { words: Seq::empty(), cur: Seq::empty(), single: false, double: false, escape: false }
}

/// One character of tokenizing: a backslash inside double quotes takes
/// the next character literally; quotes toggle (a single quote only
/// outside double quotes and the reverse) and are dropped; whitespace
/// outside quotes ends a word; anything else joins the current word.
pub open spec fn scan_step(st: ShellScan, ch: char) -> ShellScan {
    if st.escape {
        ShellScan { words: st.words, cur: st.cur.push(ch), single: st.single, double: st.double, escape: false }
    } else if ch == '\\' && st.double {
        ShellScan { words: st.words, cur: st.cur, single: st.single, double: st.double, escape: true }
    } else if ch == '\'' && !st.double {
        ShellScan { words: st.words, cur: st.cur, single: !st.single, double: st.double, escape: false }
    } else if ch == '"' && !st.single {
        ShellScan { words: st.words, cur: st.cur, single: st.single, double: !st.double, escape: false }
    } else if is_ws(ch) && !st.single && !st.double {
        if st.cur.len() > 0 {
            ShellScan { words: st.words.push(st.cur), cur: Seq::empty(), single: false, double: false, escape: false }
        } else {
            st
        }
    } else {
        ShellScan { words: st.words, cur: st.cur.push(ch), single: st.single, double: st.double, escape: false }
    }
}

/// The state after tokenizing all of `s`.
pub open spec fn scan(s: Seq<char>) -> ShellScan
    decreases s.len(),
{
    if s.len() == 0 {
        scan_start()
    } else {
        scan_step(scan(s.drop_last()), s.last())
    }
}

/// The words of a command line, quotes removed; `None` when it has none.
pub open spec fn shell_words(cmd: Seq<char>) -> Option<Seq<Seq<char>>> {
    let t = trim(cmd);
    let st = scan(t);
    let words = if st.cur.len() > 0 {
        st.words.push(st.cur)
    } else {
        st.words
    };
    if t.len() == 0 || words.len() == 0 {
        None
    } else {
        Some(words)
    }
}

/// Splits a command line into words (single and double quotes, backslash
/// escapes inside double quotes); `None` when there are no words.
pub fn parse_shell_argv(cmd: &str) -> (r: Option<Vec<String>>)
    ensures
        match r {
            Some(v) => shell_words(cmd@) == Some(strs_view(v@)),
            None => shell_words(cmd@) is None,
        },
{
    let cs = chars_of(cmd);
    let t = trim_chars(cs.as_slice());
    if t.len() == 0 {
        return None;
    }
    let mut out: Vec<String> = Vec::new();
    let mut cur: Vec<char> = Vec::new();
    let mut in_single = false;
    let mut in_double = false;
    let mut escape = false;
    let mut i: usize = 0;
    while i < t.len()
        invariant
            i <= t.len(),
            ({
                let st = scan(t@.take(i as int));
                &&& st.words == strs_view(out@)
                &&& st.cur == cur@
                &&& st.single == in_single
                &&& st.double == in_double
                &&& st.escape == escape
            }),
        decreases t.len() - i,
    {
        let ch = t[i];
        assert(t@.take(i + 1).drop_last() == t@.take(i as int));
        assert(t@.take(i + 1).last() == ch);
        let ws = char_is_whitespace(ch);
        if escape {
            cur.push(ch);
            escape = false;
        } else if ch == '\\' && in_double {
            escape = true;
        } else if ch == '\'' && !in_double {
            in_single = !in_single;
        } else if ch == '"' && !in_single {
            in_double = !in_double;
        } else if ws && !in_single && !in_double {
            if cur.len() > 0 {
                let ghost before = out@;
                out.push(string_from(cur.as_slice()));
                assert(strs_view(out@) =~= strs_view(before).push(cur@));
                cur = Vec::new();
            }
        } else {
            cur.push(ch);
        }
        i = i + 1;
    }
    assert(t@.take(t.len() as int) == t@);
    if cur.len() > 0 {
        let ghost before = out@;
        out.push(string_from(cur.as_slice()));
        assert(strs_view(out@) =~= strs_view(before).push(cur@));
    }
    if out.len() == 0 {
        None
    } else {
        Some(out)
    }
}

// ---------------------------------------------------------------------
// Decisions
// ---------------------------------------------------------------------

/// Rule id of the whole-file read cap.
pub open spec fn read_cap_rule() -> Seq<char> {
    "read.whole_file_cap"@
}

/// Rule id of the shell rules.
pub open spec fn shell_rule() -> Seq<char> {
    "shell.rules_deny"@
}

/// Rule id of output clipping.
pub open spec fn clip_rule() -> Seq<char> {
    "clip.output"@
}

/// Message for a refused whole-file read.
pub open spec fn read_cap_message(path: Seq<char>, total: nat, max: nat) -> Seq<char> {
    path + " has "@ + dec(total) + " lines; whole-file reads over "@ + dec(max)
        + " lines are capped. Re-read with offset/limit for the range you need, or call one-grep `context` for the enclosing symbol."@
}

/// Message for an unscoped search (`what` is `glob` or `grep`).
pub open spec fn scope_message(what: Seq<char>) -> Seq<char> {
    "Unscoped "@ + what
        + " at repo root floods context. Pass a path scope (directory or path-qualified pattern) so the search stays bounded."@
}

/// The file whose line count decides a read: the path of a whole-file
/// read (no offset, no limit), resolved against the event's directory.
pub open spec fn spec_read_target(ev: SToolEvent) -> Option<Seq<char>> {
    if ev.phase == Phase::Pre && ev.tool is Read && ev.args.offset is None && ev.args.limit is None {
        match ev.args.path {
            Some(p) => Some(join_path(ev.cwd, p)),
            None => None,
        }
    } else {
        None
    }
}

/// Whole-file reads of more than `max` lines are refused.
pub open spec fn spec_read_pre(ev: SToolEvent, max: u64, lines: Option<u64>) -> SDecision {
    if ev.args.offset is Some || ev.args.limit is Some {
        SDecision::Allow
    } else {
        match ev.args.path {
            None => SDecision::Allow,
            Some(p) => match lines {
                None => SDecision::Allow,
                Some(n) => if n <= max {
                    SDecision::Allow
                } else {
                    SDecision::Deny(read_cap_message(p, n as nat, max as nat), read_cap_rule())
                },
            },
        }
    }
}

/// Searches without a path scope are refused.
pub open spec fn spec_scope_pre(ev: SToolEvent, what: Seq<char>) -> SDecision {
    if has_path_scope(ev.args) {
        SDecision::Allow
    } else {
        SDecision::Deny(scope_message(what), what + ".unscoped"@)
    }
}

/// Shell commands are judged by the shell rules, with the
/// event's directory as the workspace root.
pub open spec fn spec_shell_pre(ev: SToolEvent, policy: Policy) -> SDecision {
    let cmd = match ev.args.command {
        Some(c) => c,
        None => Seq::empty(),
    };
    match shell_words(cmd) {
        None => SDecision::Allow,
        Some(argv) => match spec_rules_verdict(
            argv,
            prefixes_view(policy.shell.rules.allow@),
            prefixes_view(policy.shell.rules.deny@),
            ev.cwd,
        ) {
            Some(SVerdict::Ask(m)) => SDecision::Deny(m, shell_rule()),
            Some(SVerdict::Block(m)) => SDecision::Deny(m, shell_rule()),
            _ => SDecision::Allow,
        },
    }
}

/// The replacement text for a long output: the clipped output, plus where
/// the full output was archived.
pub open spec fn clip_text(output: Seq<char>, archived_at: Option<Seq<char>>) -> Seq<char> {
    let c = clipped(vstd::utf8::encode_utf8(output), 2048, 6144);
    match archived_at {
        Some(p) => c + "\n\n[toolgate] full output archived at "@ + p,
        None => c,
    }
}

/// Whether the event's output is long enough to clip, for a tool whose
/// output is clipped (shell and MCP).
pub open spec fn spec_needs_archive(ev: SToolEvent, policy: Policy) -> bool {
    let output = match ev.output {
        Some(o) => o,
        None => Seq::empty(),
    };
    &&& ev.phase == Phase::Post
    &&& utf8_len(output) >= policy.clip.min_bytes
    &&& (ev.tool is Shell || ev.tool is Mcp)
}

/// After-hooks: long shell and MCP outputs are clipped.
pub open spec fn spec_post(ev: SToolEvent, policy: Policy, facts: SHostFacts) -> SDecision {
    let output = match ev.output {
        Some(o) => o,
        None => Seq::empty(),
    };
    if spec_needs_archive(ev, policy) {
        SDecision::ReplaceOutput(clip_text(output, facts.archived_at), clip_rule())
    } else {
        SDecision::Allow
    }
}

/// The raw decision for `ev`.
pub open spec fn spec_decide_raw(ev: SToolEvent, policy: Policy, facts: SHostFacts) -> SDecision {
    match ev.phase {
        Phase::Pre => match ev.tool {
            SToolKind::Read => spec_read_pre(ev, policy.read.max_lines, facts.read_lines),
            SToolKind::Glob => if policy.glob.require_path_scope {
                spec_scope_pre(ev, "glob"@)
            } else {
                SDecision::Allow
            },
            SToolKind::Grep => if policy.grep.require_path_scope {
                spec_scope_pre(ev, "grep"@)
            } else {
                SDecision::Allow
            },
            SToolKind::Shell => spec_shell_pre(ev, policy),
            _ => SDecision::Allow,
        },
        Phase::Post => spec_post(ev, policy, facts),
    }
}

/// The rule behind a decision.
pub open spec fn rule_of(d: SDecision) -> Option<Seq<char>> {
    match d {
        SDecision::Allow => None,
        SDecision::Deny(_, r) => Some(r),
        SDecision::Rewrite(_, r) => Some(r),
        SDecision::ReplaceOutput(_, r) => Some(r),
    }
}

/// The file whose line count [`decide`] needs, if any.
pub fn read_target(event: &ToolEvent) -> (r: Option<String>)
    ensures
        opt_view(r) == spec_read_target(event.sv()),
{
    match event.phase {
        Phase::Pre => {},
        Phase::Post => {
            return None;
        },
    }
    match event.tool {
        ToolKind::Read => {},
        _ => {
            return None;
        },
    }
    if event.args.offset.is_some() || event.args.limit.is_some() {
        return None;
    }
    match &event.args.path {
        Some(p) => Some(resolve_path(event.cwd.as_str(), p.as_str())),
        None => None,
    }
}

/// Whether [`decide`] will replace the event's output (so the full output
/// is worth archiving first).
pub fn needs_archive(event: &ToolEvent, policy: &Policy) -> (r: bool)
    ensures
        r == spec_needs_archive(event.sv(), *policy),
{
    match event.phase {
        Phase::Post => {},
        Phase::Pre => {
            return false;
        },
    }
    let n: usize = match &event.output {
        Some(o) => o.as_str().as_bytes().len(),
        None => 0,
    };
    proof {
        if event.output is None {
            assert(vstd::utf8::encode_utf8(Seq::<char>::empty()) =~= Seq::<u8>::empty());
        }
    }
    if n < policy.clip.min_bytes {
        return false;
    }
    match event.tool {
        ToolKind::Shell => true,
        ToolKind::Mcp { .. } => true,
        _ => false,
    }
}

/// File name under which an output is archived: its SHA-256 in hex, then
/// `.log`.
pub fn archive_name(body: &str) -> (r: String)
    ensures
        r@ == sha256_hex_of(body@) + ".log"@,
{
    let h = sha256_hex(body);
    let mut out: Vec<char> = Vec::new();
    push_str_chars(&mut out, h.as_str());
    push_str_chars(&mut out, ".log");
    string_from(out.as_slice())
}

fn lit(s: &str) -> (r: String)
    ensures
        r@ == s@,
{
    string_from(chars_of(s).as_slice())
}

fn read_pre(event: &ToolEvent, policy: &Policy, facts: &HostFacts) -> (r: Decision)
    ensures
        r.sv() == spec_read_pre(event.sv(), policy.read.max_lines, facts.read_lines),
{
    if event.args.offset.is_some() || event.args.limit.is_some() {
        return Decision::Allow;
    }
    let p = match &event.args.path {
        Some(p) => p,
        None => {
            return Decision::Allow;
        },
    };
    let total = match facts.read_lines {
        None => {
            return Decision::Allow;
        },
        Some(n) => n,
    };
    if total <= policy.read.max_lines {
        return Decision::Allow;
    }
    let mut m: Vec<char> = Vec::new();
    push_str_chars(&mut m, p.as_str());
    push_str_chars(&mut m, " has ");
    let d = dec_chars(total);
    push_chars(&mut m, d.as_slice());
    push_str_chars(&mut m, " lines; whole-file reads over ");
    let x = dec_chars(policy.read.max_lines);
    push_chars(&mut m, x.as_slice());
    push_str_chars(
        &mut m,
        " lines are capped. Re-read with offset/limit for the range you need, or call one-grep `context` for the enclosing symbol.",
    );
    Decision::Deny { agent_message: string_from(m.as_slice()), rule_id: lit("read.whole_file_cap") }
}

fn scope_pre(event: &ToolEvent, what: &str) -> (r: Decision)
    ensures
        r.sv() == spec_scope_pre(event.sv(), what@),
{
    if args_has_path_scope(&event.args) {
        return Decision::Allow;
    }
    let mut m: Vec<char> = Vec::new();
    push_str_chars(&mut m, "Unscoped ");
    push_str_chars(&mut m, what);
    push_str_chars(
        &mut m,
        " at repo root floods context. Pass a path scope (directory or path-qualified pattern) so the search stays bounded.",
    );
    let mut id: Vec<char> = Vec::new();
    push_str_chars(&mut id, what);
    push_str_chars(&mut id, ".unscoped");
    Decision::Deny { agent_message: string_from(m.as_slice()), rule_id: string_from(id.as_slice()) }
}

fn shell_pre(event: &ToolEvent, policy: &Policy) -> (r: Decision)
    ensures
        r.sv() == spec_shell_pre(event.sv(), *policy),
{
    let cmd: &str = match &event.args.command {
        Some(c) => c.as_str(),
        None => "",
    };
    proof {
        reveal_strlit("");
        assert(cmd@ == (match event.sv().args.command {
            Some(c) => c,
            None => Seq::<char>::empty(),
        }));
    }
    let argv = match parse_shell_argv(cmd) {
        None => {
            return Decision::Allow;
        },
        Some(a) => a,
    };
    match rules_verdict(argv.as_slice(), &policy.shell.rules, event.cwd.as_str()) {
        Some(Verdict::Ask(m)) => Decision::Deny { agent_message: m, rule_id: lit("shell.rules_deny") },
        Some(Verdict::Block(m)) => Decision::Deny { agent_message: m, rule_id: lit("shell.rules_deny") },
        _ => Decision::Allow,
    }
}

fn post(event: &ToolEvent, policy: &Policy, facts: &HostFacts) -> (r: Decision)
    ensures
        r.sv() == spec_post(event.sv(), *policy, facts.sv()),
{
    if !needs_archive(event, policy) {
        return Decision::Allow;
    }
    let output: &str = match &event.output {
        Some(o) => o.as_str(),
        None => "",
    };
    proof {
        reveal_strlit("");
        assert(output@ == (match event.sv().output {
            Some(o) => o,
            None => Seq::<char>::empty(),
        }));
    }
    let c = clip_utf8(output, crate::run::OUTPUT_CAP_BYTES);
    let mut t: Vec<char> = Vec::new();
    push_str_chars(&mut t, c.as_str());
    match &facts.archived_at {
        Some(p) => {
            push_str_chars(&mut t, "\n\n[toolgate] full output archived at ");
            push_str_chars(&mut t, p.as_str());
        },
        None => {},
    }
    Decision::ReplaceOutput { text: string_from(t.as_slice()), rule_id: lit("clip.output") }
}

/// The raw decision.
fn decide_raw(event: &ToolEvent, policy: &Policy, facts: &HostFacts) -> (r: Decision)
    ensures
        r.sv() == spec_decide_raw(event.sv(), *policy, facts.sv()),
        !(r is Rewrite),
{
    match event.phase {
        Phase::Pre => match &event.tool {
            ToolKind::Read => read_pre(event, policy, facts),
            ToolKind::Glob => if policy.glob.require_path_scope {
                scope_pre(event, "glob")
            } else {
                Decision::Allow
            },
            ToolKind::Grep => if policy.grep.require_path_scope {
                scope_pre(event, "grep")
            } else {
                Decision::Allow
            },
            ToolKind::Shell => shell_pre(event, policy),
            _ => Decision::Allow,
        },
        Phase::Post => post(event, policy, facts),
    }
}

/// A copy of a decision that holds no rewritten input.
fn copy_decision(d: &Decision) -> (r: Decision)
    requires
        !(*d is Rewrite),
    ensures
        r.sv() == d.sv(),
{
    match d {
        Decision::Allow => Decision::Allow,
        Decision::Deny { agent_message, rule_id } => Decision::Deny {
            agent_message: agent_message.clone(),
            rule_id: rule_id.clone(),
        },
        Decision::ReplaceOutput { text, rule_id } => Decision::ReplaceOutput {
            text: text.clone(),
            rule_id: rule_id.clone(),
        },
        Decision::Rewrite { .. } => Decision::Allow,
    }
}

/// Pure policy evaluation. The raw decision follows the rules; the applied
/// one is the raw decision in enforce mode and `Allow` in observe mode.
pub fn decide(event: &ToolEvent, policy: &Policy, facts: &HostFacts) -> (r: PolicyOutcome)
    ensures
        r.raw.sv() == spec_decide_raw(event.sv(), *policy, facts.sv()),
        r.applied.sv() == (if policy.mode == PolicyMode::Observe {
            SDecision::Allow
        } else {
            spec_decide_raw(event.sv(), *policy, facts.sv())
        }),
        opt_view(r.rule_id) == rule_of(r.raw.sv()),
{
    let raw = decide_raw(event, policy, facts);
    let rule_id = match &raw {
        Decision::Allow => None,
        Decision::Deny { rule_id, .. } => Some(rule_id.clone()),
        Decision::Rewrite { rule_id, .. } => Some(rule_id.clone()),
        Decision::ReplaceOutput { rule_id, .. } => Some(rule_id.clone()),
    };
    let applied = if policy.mode == PolicyMode::Observe {
        Decision::Allow
    } else {
        copy_decision(&raw)
    };
    PolicyOutcome { raw, applied, rule_id }
}

// ---------------------------------------------------------------------
// Laws
// ---------------------------------------------------------------------

/// The mode changes what is applied, never what is decided: two policies
/// that differ only in their mode give the same raw decision.
pub proof fn law_mode_does_not_change_the_raw_decision(
    ev: SToolEvent,
    p1: Policy,
    p2: Policy,
    facts: SHostFacts,
)
    requires
        p1.read == p2.read,
        p1.glob == p2.glob,
        p1.grep == p2.grep,
        p1.clip == p2.clip,
        p1.shell == p2.shell,
    ensures
        spec_decide_raw(ev, p1, facts) == spec_decide_raw(ev, p2, facts),
{
}

/// A read that names an offset or a limit is never refused.
pub proof fn law_ranged_reads_pass(ev: SToolEvent, policy: Policy, facts: SHostFacts)
    requires
        ev.phase == Phase::Pre,
        ev.tool is Read,
        ev.args.offset is Some || ev.args.limit is Some,
    ensures
        spec_decide_raw(ev, policy, facts) == SDecision::Allow,
{
}

/// Before a tool runs, the policy allows or refuses; after it ran, it
/// allows or replaces the output. It never rewrites input.
pub proof fn law_phases_decide_their_own_things(ev: SToolEvent, policy: Policy, facts: SHostFacts)
    ensures
        ev.phase == Phase::Pre ==> (spec_decide_raw(ev, policy, facts) is Allow
            || spec_decide_raw(ev, policy, facts) is Deny),
        ev.phase == Phase::Post ==> (spec_decide_raw(ev, policy, facts) is Allow
            || spec_decide_raw(ev, policy, facts) is ReplaceOutput),
{
}

/// Every decision other than `Allow` names the rule behind it.
pub proof fn law_every_refusal_names_its_rule(ev: SToolEvent, policy: Policy, facts: SHostFacts)
    ensures
        (rule_of(spec_decide_raw(ev, policy, facts)) is None) == (spec_decide_raw(
            ev,
            policy,
            facts,
        ) is Allow),
{
}

/// Tools the policy does not know (`Other`), and edits and writes, are
/// always let through: unknown shapes fail open.
pub proof fn law_unknown_tools_pass(ev: SToolEvent, policy: Policy, facts: SHostFacts)
    requires
        ev.tool is Other || ev.tool is Edit || ev.tool is Write,
    ensures
        spec_decide_raw(ev, policy, facts) == SDecision::Allow,
{
}

/// Each search tool answers to its own scope rule. Before a grep runs:
/// with `grep.require_path_scope` off it is allowed, whatever the glob
/// rule; with it on, it is allowed exactly when it names a path scope,
/// and refused under `grep.unscoped` otherwise. The same holds of glob
/// and `glob.require_path_scope`.
pub proof fn law_search_tools_follow_their_own_rule(
    ev: SToolEvent,
    policy: Policy,
    facts: SHostFacts,
)
    requires
        ev.phase == Phase::Pre,
    ensures
        ev.tool is Grep && !policy.grep.require_path_scope ==> spec_decide_raw(ev, policy, facts)
            == SDecision::Allow,
        ev.tool is Grep && policy.grep.require_path_scope ==> ((spec_decide_raw(ev, policy, facts)
            is Allow) == has_path_scope(ev.args) && (!has_path_scope(ev.args) ==> rule_of(
            spec_decide_raw(ev, policy, facts),
        ) == Some("grep.unscoped"@))),
        ev.tool is Glob && !policy.glob.require_path_scope ==> spec_decide_raw(ev, policy, facts)
            == SDecision::Allow,
        ev.tool is Glob && policy.glob.require_path_scope ==> ((spec_decide_raw(ev, policy, facts)
            is Allow) == has_path_scope(ev.args) && (!has_path_scope(ev.args) ==> rule_of(
            spec_decide_raw(ev, policy, facts),
        ) == Some("glob.unscoped"@))),
{
    reveal_strlit("grep");
    reveal_strlit("glob");
    reveal_strlit(".unscoped");
    reveal_strlit("grep.unscoped");
    reveal_strlit("glob.unscoped");
    assert("grep"@ + ".unscoped"@ =~= "grep.unscoped"@);
    assert("glob"@ + ".unscoped"@ =~= "glob.unscoped"@);
}

/// Two policies that differ only in their glob rule decide every grep
/// event alike, and two that differ only in their grep rule decide every
/// glob event alike.
pub proof fn law_scope_rules_are_independent(
    ev: SToolEvent,
    p1: Policy,
    p2: Policy,
    facts: SHostFacts,
)
    requires
        p1.mode == p2.mode,
        p1.read == p2.read,
        p1.clip == p2.clip,
        p1.shell == p2.shell,
    ensures
        ev.tool is Grep && p1.grep == p2.grep ==> spec_decide_raw(ev, p1, facts) == spec_decide_raw(
            ev,
            p2,
            facts,
        ),
        ev.tool is Glob && p1.glob == p2.glob ==> spec_decide_raw(ev, p1, facts) == spec_decide_raw(
            ev,
            p2,
            facts,
        ),
{
}

/// Before a read: a whole-file read (no offset, no limit) of a path whose
/// file has more than `read.max_lines` lines is refused under
/// `read.whole_file_cap` with a message that opens with the path; one of
/// at most that many lines, or of unknown length, is allowed.
pub proof fn law_whole_file_read_cap(ev: SToolEvent, policy: Policy, facts: SHostFacts)
    requires
        ev.phase == Phase::Pre,
        ev.tool is Read,
        ev.args.offset is None,
        ev.args.limit is None,
        ev.args.path is Some,
    ensures
        ({
            let d = spec_decide_raw(ev, policy, facts);
            let p = ev.args.path->0;
            &&& (facts.read_lines matches Some(n) && n > policy.read.max_lines) ==> (d is Deny
                && rule_of(d) == Some("read.whole_file_cap"@) && (d->Deny_0).take(p.len() as int)
                == p)
            &&& (facts.read_lines is None || facts.read_lines->0 <= policy.read.max_lines) ==> d
                == SDecision::Allow
        }),
{
    reveal_strlit("read.whole_file_cap");
    let p = ev.args.path->0;
    if facts.read_lines is Some && facts.read_lines->0 > policy.read.max_lines {
        let m = read_cap_message(p, facts.read_lines->0 as nat, policy.read.max_lines as nat);
        assert(m.take(p.len() as int) =~= p);
    }
}

/// After a tool ran: a shell or MCP output of at least `clip.min_bytes`
/// bytes is replaced under `clip.output` by its clip, followed by where
/// the full output was archived when it was; a shorter output, or that of
/// any other tool, is left alone.
pub proof fn law_long_outputs_are_clipped(ev: SToolEvent, policy: Policy, facts: SHostFacts)
    requires
        ev.phase == Phase::Post,
    ensures
        ({
            let d = spec_decide_raw(ev, policy, facts);
            let out = match ev.output {
                Some(o) => o,
                None => Seq::empty(),
            };
            let c = clipped(vstd::utf8::encode_utf8(out), 2048, 6144);
            &&& ((ev.tool is Shell || ev.tool is Mcp) && utf8_len(out) >= policy.clip.min_bytes)
                ==> (d is ReplaceOutput && rule_of(d) == Some("clip.output"@) && (d->ReplaceOutput_0).take(
                c.len() as int,
            ) == c && (facts.archived_at is None ==> d->ReplaceOutput_0 == c))
            &&& (!(ev.tool is Shell || ev.tool is Mcp) || utf8_len(out) < policy.clip.min_bytes)
                ==> d == SDecision::Allow
        }),
{
    reveal_strlit("clip.output");
    let out = match ev.output {
        Some(o) => o,
        None => Seq::empty(),
    };
    let c = clipped(vstd::utf8::encode_utf8(out), 2048, 6144);
    match facts.archived_at {
        Some(p) => {
            assert((c + "\n\n[toolgate] full output archived at "@ + p).take(c.len() as int) =~= c);
        },
        None => {
            assert(c.take(c.len() as int) =~= c);
        },
    }
}

/// Before a shell command: when its words are refused by the shell
/// rules (with the event's directory as the root), the command is refused
/// under `shell.rules_deny` with the rules' own message; when the rules
/// allow it or leave it open, it is allowed.
pub proof fn law_shell_follows_the_rules(
    ev: SToolEvent,
    policy: Policy,
    facts: SHostFacts,
    argv: Seq<Seq<char>>,
)
    requires
        ev.phase == Phase::Pre,
        ev.tool is Shell,
        ev.args.command is Some,
        shell_words(ev.args.command->0) == Some(argv),
    ensures
        ({
            let d = spec_decide_raw(ev, policy, facts);
            let v = spec_rules_verdict(
                argv,
                prefixes_view(policy.shell.rules.allow@),
                prefixes_view(policy.shell.rules.deny@),
                ev.cwd,
            );
            &&& (v is Some && v->0 is Block) ==> d == SDecision::Deny(
                v->0->Block_0,
                "shell.rules_deny"@,
            )
            &&& (v is Some && v->0 is Ask) ==> d == SDecision::Deny(
                v->0->Ask_0,
                "shell.rules_deny"@,
            )
            &&& (v is None || v == Some(SVerdict::Allow)) ==> d == SDecision::Allow
        }),
{
}

} // verus!
