//! Safety gate for command runs: fixed rules before any model.
//!
//! [`rules_verdict`] refuses a fixed set of destructive commands (after
//! looking through `git`'s global options), allows a small schema of
//! read-only or build commands whose every flag is known, and leaves the
//! rest (`None`) to the score-based gate.
//!
//! Path-valued flags must name a place under the workspace root; see
//! [`crate::path::inside_root`].

use vstd::prelude::*;

use crate::json::opt_view;
use crate::path::{inside, inside_root};
use crate::text::{
    str_eq,
    after_first, ascii_lower, ascii_lower_chars, before_first, chars_eq, chars_of,
    chars_starts_with, contains_lit, contains_seq, eq_lit, find_char, has_char, join, push_join,
    push_chars, push_str_chars, starts_with, starts_with_lit, string_from, sub_chars, trim,
    trim_chars,
};

verus! {

/// Process-env key, shared with one-grep's Jev wiring.
pub const ENV_API_KEY: &'static str = "TYPESAFE_API_KEY";

/// Process-env base URL override (LocalJev, Laya, ...).
pub const ENV_BASE_URL: &'static str = "TYPESAFE_BASE_URL";

/// Process-env model override.
pub const ENV_MODEL: &'static str = "JEV_MODEL";

/// Server gate mode (`off` or `jev`).
pub const ENV_GATE_MODE: &'static str = "TOOLGATE_GATE";

/// Whether the server runs commands through the Jev gate.
#[derive(Debug, Clone, Copy, PartialEq, Eq, Structural)]
pub enum GateMode {
    /// Run without Jev.
    Off,
    /// Fixed rules first, then Jev for the rest.
    Jev,
}

/// What [`GateMode::parse`] reads from `s`.
pub open spec fn spec_gate_mode(s: Seq<char>) -> Option<GateMode> {
    let t = ascii_lower(trim(s));
    if t == "off"@ || t.len() == 0 {
        Some(GateMode::Off)
    } else if t == "jev"@ {
        Some(GateMode::Jev)
    } else {
        None
    }
}

impl GateMode {
    /// Parse `off` or `jev` (case-insensitive, surrounding whitespace
    /// ignored; an empty value is `off`).
    pub fn parse(s: &str) -> (r: Option<GateMode>)
        ensures
            r == spec_gate_mode(s@),
    {
        let cs = chars_of(s);
        let t = trim_chars(cs.as_slice());
        let l = ascii_lower_chars(t.as_slice());
        if eq_lit(l.as_slice(), "off") || l.len() == 0 {
            Some(GateMode::Off)
        } else if eq_lit(l.as_slice(), "jev") {
            Some(GateMode::Jev)
        } else {
            None
        }
    }

    /// The mode a `TOOLGATE_GATE` value selects: the parsed value when
    /// it parses, otherwise `default_off`.
    pub fn from_env_value(value: Option<&str>, default_off: GateMode) -> (r: GateMode)
        ensures
            r == match value {
                Some(v) => match spec_gate_mode(v@) {
                    Some(m) => m,
                    None => default_off,
                },
                None => default_off,
            },
    {
        match value {
            Some(v) => match GateMode::parse(v) {
                Some(m) => m,
                None => default_off,
            },
            None => default_off,
        }
    }
}

/// Default Jev endpoint.
pub const DEFAULT_BASE_URL: &'static str = "https://api.typesafe.ai";

/// Default Jev model.
pub const DEFAULT_MODEL: &'static str = "jev-1.13.0";

/// Jev client settings.
#[derive(Debug, Clone, PartialEq, Eq)]
pub struct GateSettings {
    /// API key.
    pub api_key: String,
    /// Endpoint without trailing slashes.
    pub base_url: String,
    /// Model name.
    pub model: String,
}

/// `s` without trailing `/` characters (`trim_end_matches('/')`).
pub open spec fn trim_slashes(s: Seq<char>) -> Seq<char>
    decreases s.len(),
{
    if s.len() > 0 && s.last() == '/' {
        trim_slashes(s.drop_last())
    } else {
        s
    }
}

/// The value when it is set and not blank.
pub open spec fn non_blank(v: Option<Seq<char>>) -> Option<Seq<char>> {
    match v {
        Some(s) => if trim(s).len() > 0 {
            Some(s)
        } else {
            None
        },
        None => None,
    }
}

/// `s` without trailing `/` characters.
pub fn trim_trailing_slashes(s: &str) -> (r: String)
    ensures
        r@ == trim_slashes(s@),
{
    let cs = chars_of(s);
    let mut n: usize = cs.len();
    assert(cs@.take(n as int) == cs@);
    while n > 0 && cs[n - 1] == '/'
        invariant
            n <= cs.len(),
            trim_slashes(cs@) == trim_slashes(cs@.take(n as int)),
        decreases n,
    {
        assert(cs@.take(n as int).drop_last() == cs@.take(n - 1));
        n = n - 1;
    }
    let t = sub_chars(cs.as_slice(), 0, n);
    assert(t@ == cs@.take(n as int));
    string_from(t.as_slice())
}

fn non_blank_of(v: Option<String>) -> (r: Option<String>)
    ensures
        opt_view(r) == non_blank(opt_view(v)),
{
    match v {
        Some(s) => {
            let cs = chars_of(s.as_str());
            if trim_chars(cs.as_slice()).len() > 0 {
                Some(s)
            } else {
                None
            }
        },
        None => None,
    }
}

/// Jev settings from the values of `TYPESAFE_API_KEY`, `TYPESAFE_BASE_URL`
/// and `JEV_MODEL`: blank values count as unset; a missing key is an
/// error (fail closed); the endpoint and model have defaults; the
/// endpoint loses its trailing slashes.
pub fn settings_from_vars(
    api_key: Option<String>,
    base_url: Option<String>,
    model: Option<String>,
) -> (r: Result<GateSettings, Error>)
    ensures
        match r {
            Ok(g) => non_blank(opt_view(api_key)) == Some(g.api_key@) && g.base_url@
                == trim_slashes(
                match non_blank(opt_view(base_url)) {
                    Some(b) => b,
                    None => DEFAULT_BASE_URL@,
                },
            ) && g.model@ == match non_blank(opt_view(model)) {
                Some(m) => m,
                None => DEFAULT_MODEL@,
            },
            Err(e) => non_blank(opt_view(api_key)) is None && (e matches Error::NoKey(k) && k@
                == ENV_API_KEY@),
        },
{
    let key = match non_blank_of(api_key) {
        Some(k) => k,
        None => {
            return Err(Error::NoKey(ENV_API_KEY));
        },
    };
    let base = match non_blank_of(base_url) {
        Some(b) => b,
        None => DEFAULT_BASE_URL.to_owned(),
    };
    let model = match non_blank_of(model) {
        Some(m) => m,
        None => DEFAULT_MODEL.to_owned(),
    };
    Ok(GateSettings { api_key: key, base_url: trim_trailing_slashes(base.as_str()), model })
}

/// argv prefix lists: custom allow and deny rules.
#[derive(Debug, Clone, PartialEq, Eq)]
pub struct Rules {
    /// Prefixes that always run (only single-word prefixes take effect).
    pub allow: Vec<Vec<String>>,
    /// Prefixes that always refuse.
    pub deny: Vec<Vec<String>>,
}

/// Gate verdict.
#[derive(Debug, Clone, PartialEq, Eq)]
pub enum Verdict {
    /// Run the command.
    Allow,
    /// Refuse: needs a person.
    Ask(String),
    /// Refuse: too dangerous.
    Block(String),
}

/// A verdict as a specification value.
pub enum SVerdict {
    /// Run the command.
    Allow,
    /// Refuse: needs a person.
    Ask(Seq<char>),
    /// Refuse: too dangerous.
    Block(Seq<char>),
}

impl Verdict {
    /// The verdict as a specification value.
    pub open spec fn sv(&self) -> SVerdict {
        match self {
            Verdict::Allow => SVerdict::Allow,
            Verdict::Ask(m) => SVerdict::Ask(m@),
            Verdict::Block(m) => SVerdict::Block(m@),
        }
    }
}

/// Cache key for Jev verdicts (root + argv).
#[derive(Debug, Clone, PartialEq, Eq, Hash)]
pub struct GateCacheKey {
    /// Workspace root string passed to Jev.
    pub root: String,
    /// Full argv (program + args).
    pub argv: Vec<String>,
}

/// Gate errors: key and call problems fail closed at the call site.
#[derive(Debug)]
pub enum Error {
    /// No API key configured (names the variable).
    NoKey(&'static str),
    /// HTTP or protocol failure.
    Call(String),
}

/// The message of a gate error.
pub open spec fn spec_error_message(e: &Error) -> Seq<char> {
    match e {
        Error::NoKey(k) => "jev unavailable (missing `"@ + k@ + "`): refusing run"@,
        Error::Call(m) => "jev call failed: "@ + m@,
    }
}

impl Error {
    /// Human-readable message.
    pub fn message(&self) -> (r: String)
        ensures
            r@ == spec_error_message(self),
    {
        let mut out: Vec<char> = Vec::new();
        match self {
            Error::NoKey(k) => {
                push_str_chars(&mut out, "jev unavailable (missing `");
                push_str_chars(&mut out, k);
                push_str_chars(&mut out, "`): refusing run");
            },
            Error::Call(m) => {
                push_str_chars(&mut out, "jev call failed: ");
                push_str_chars(&mut out, m.as_str());
            },
        }
        string_from(out.as_slice())
    }
}

// ---------------------------------------------------------------------
// Views
// ---------------------------------------------------------------------

/// Character view of a list of strings.
pub open spec fn strs_view(v: Seq<String>) -> Seq<Seq<char>> {
    v.map_values(|s: String| s@)
}

/// Character view of a list of character vectors.
pub open spec fn cvs_view(v: Seq<Vec<char>>) -> Seq<Seq<char>> {
    v.map_values(|s: Vec<char>| s@)
}

/// Character view of a list of prefix lists.
pub open spec fn prefixes_view(v: Seq<Vec<String>>) -> Seq<Seq<Seq<char>>> {
    v.map_values(|p: Vec<String>| strs_view(p@))
}

fn to_cvs(v: &[String]) -> (r: Vec<Vec<char>>)
    ensures
        cvs_view(r@) == strs_view(v@),
{
    let mut out: Vec<Vec<char>> = Vec::new();
    let mut i: usize = 0;
    while i < v.len()
        invariant
            i <= v.len(),
            cvs_view(out@) == strs_view(v@).take(i as int),
        decreases v.len() - i,
    {
        let ghost before = out@;
        out.push(chars_of(v[i].as_str()));
        assert(cvs_view(out@) =~= cvs_view(before).push(v@[i as int]@));
        assert(strs_view(v@).take(i + 1) =~= strs_view(v@).take(i as int).push(v@[i as int]@));
        i = i + 1;
    }
    assert(strs_view(v@).take(v.len() as int) =~= strs_view(v@));
    out
}

// ---------------------------------------------------------------------
// Words
// ---------------------------------------------------------------------

/// The last `/`- or `\`-separated segment of `p`.
pub open spec fn basename(p: Seq<char>) -> Seq<char>
    decreases p.len(),
{
    if p.len() == 0 {
        p
    } else if p.last() == '/' || p.last() == '\\' {
        Seq::empty()
    } else {
        basename(p.drop_last()).push(p.last())
    }
}

/// `v` is the option `name`, bare or as `name=value`.
pub open spec fn arg_is(v: Seq<char>, name: Seq<char>) -> bool {
    v == name || starts_with(v, name.push('='))
}

/// The option name of a `--name` or `--name=value` token.
pub open spec fn long_flag_name(t: Seq<char>) -> Option<Seq<char>> {
    if starts_with(t, "--"@) {
        Some(before_first(t.skip(2), '='))
    } else {
        None
    }
}

/// A token of short flags: `-x...` (not `--...`, not `-` alone).
pub open spec fn short_cluster(a: Seq<char>) -> bool {
    starts_with(a, "-"@) && !starts_with(a, "--"@) && a != "-"@
}

fn basename_of(p: &[char]) -> (r: Vec<char>)
    ensures
        r@ == basename(p@),
{
    let mut k: usize = p.len();
    assert(p@.take(p.len() as int) == p@);
    assert(p@.skip(p.len() as int) == Seq::<char>::empty());
    while k > 0 && p[k - 1] != '/' && p[k - 1] != '\\'
        invariant
            k <= p.len(),
            basename(p@) == basename(p@.take(k as int)) + p@.skip(k as int),
        decreases k,
    {
        assert(p@.take(k as int).drop_last() == p@.take(k - 1));
        assert(p@.take(k as int).last() == p@[k - 1]);
        assert(p@.skip(k - 1) == seq![p@[k - 1]] + p@.skip(k as int));
        k = k - 1;
    }
    if k > 0 {
        assert(p@.take(k as int).last() == p@[k - 1]);
    }
    assert(p@.skip(k as int) == p@.subrange(k as int, p@.len() as int));
    sub_chars(p, k, p.len())
}

fn arg_is_lit(v: &[char], name: &str) -> (r: bool)
    ensures
        r == arg_is(v@, name@),
{
    let mut n = chars_of(name);
    if chars_eq(v, n.as_slice()) {
        return true;
    }
    n.push('=');
    chars_starts_with(v, n.as_slice())
}

fn long_flag_name_of(t: &[char]) -> (r: Option<Vec<char>>)
    ensures
        match r {
            Some(n) => long_flag_name(t@) == Some(n@),
            None => long_flag_name(t@) is None,
        },
{
    if starts_with_lit(t, "--") {
        proof {
            reveal_strlit("--");
        }
        let rest = sub_chars(t, 2, t.len());
        assert(rest@ == t@.skip(2));
        match find_char(rest.as_slice(), '=') {
            Some(k) => Some(sub_chars(rest.as_slice(), 0, k)),
            None => Some(rest),
        }
    } else {
        None
    }
}

fn after_eq(t: &[char]) -> (r: Option<Vec<char>>)
    ensures
        match r {
            Some(v) => after_first(t@, '=') == Some(v@),
            None => after_first(t@, '=') is None,
        },
{
    match find_char(t, '=') {
        Some(k) => {
            let v = sub_chars(t, k + 1, t.len());
            assert(v@ == t@.skip(k + 1));
            Some(v)
        },
        None => None,
    }
}

fn is_short_cluster(a: &[char]) -> (r: bool)
    ensures
        r == short_cluster(a@),
{
    starts_with_lit(a, "-") && !starts_with_lit(a, "--") && !eq_lit(a, "-")
}

// ---------------------------------------------------------------------
// Flag tables
// ---------------------------------------------------------------------

/// Whether a flag takes a value.
#[derive(Debug, Clone, Copy, PartialEq, Eq, Structural)]
pub enum FlagArity {
    /// Stands alone.
    Flag,
    /// Takes the next argument (or an inline `=value`).
    TakesValue,
    /// Takes `=value` or the next argument.
    EqOrValue,
}

/// A known flag.
#[derive(Debug, Clone, Copy, PartialEq, Eq, Structural)]
pub struct FlagDef {
    /// Whether it takes a value.
    pub arity: FlagArity,
    /// Whether its value is a path that must stay under the root.
    pub path_value: bool,
}

/// The flag sets that the schema knows.
#[derive(Debug, Clone, Copy, PartialEq, Eq, Structural)]
pub enum FlagTable {
    /// `git` global options.
    GitGlobal,
    /// `cargo test|check|build`.
    Cargo,
    /// `git status`.
    GitStatus,
    /// `git diff`.
    GitDiff,
    /// `git log`.
    GitLog,
    /// `rg`.
    Rg,
}

/// A flag definition.
pub open spec fn fd(arity: FlagArity, path_value: bool) -> FlagDef {
    FlagDef { arity, path_value }
}

/// The definition of `--name` in table `t`.
pub open spec fn lookup_long(t: FlagTable, name: Seq<char>) -> Option<FlagDef> {
    match t {
        FlagTable::GitGlobal => if name == "git-dir"@ || name == "work-tree"@ {
            Some(fd(FlagArity::EqOrValue, true))
        } else if name == "namespace"@ {
            Some(fd(FlagArity::EqOrValue, false))
        } else if name == "paginate"@ || name == "no-pager"@ || name == "bare"@ || name
            == "no-replace-objects"@ || name == "literal-pathspecs"@ {
            Some(fd(FlagArity::Flag, false))
        } else {
            None
        },
        FlagTable::Cargo => if name == "package"@ {
            Some(fd(FlagArity::TakesValue, false))
        } else if name == "manifest-path"@ || name == "target-dir"@ {
            Some(fd(FlagArity::EqOrValue, true))
        } else if name == "all"@ || name == "quiet"@ || name == "verbose"@ {
            Some(fd(FlagArity::Flag, false))
        } else {
            None
        },
        FlagTable::GitStatus => if name == "short"@ || name == "branch"@ {
            Some(fd(FlagArity::Flag, false))
        } else {
            None
        },
        FlagTable::GitDiff => if name == "stat"@ {
            Some(fd(FlagArity::Flag, false))
        } else {
            None
        },
        FlagTable::GitLog => if name == "oneline"@ {
            Some(fd(FlagArity::Flag, false))
        } else if name == "max-count"@ {
            Some(fd(FlagArity::TakesValue, false))
        } else {
            None
        },
        FlagTable::Rg => if name == "line-number"@ || name == "files-with-matches"@ {
            Some(fd(FlagArity::Flag, false))
        } else {
            None
        },
    }
}

/// The definition of `-c` in table `t`.
pub open spec fn lookup_short(t: FlagTable, c: char) -> Option<FlagDef> {
    match t {
        FlagTable::GitGlobal => if c == 'p' || c == 'P' {
            Some(fd(FlagArity::Flag, false))
        } else {
            None
        },
        FlagTable::Cargo => if c == 'p' {
            Some(fd(FlagArity::TakesValue, false))
        } else if c == 'q' || c == 'v' {
            Some(fd(FlagArity::Flag, false))
        } else {
            None
        },
        FlagTable::GitStatus => if c == 's' || c == 'b' {
            Some(fd(FlagArity::Flag, false))
        } else {
            None
        },
        FlagTable::GitDiff => None,
        FlagTable::GitLog => if c == 'n' {
            Some(fd(FlagArity::TakesValue, false))
        } else {
            None
        },
        FlagTable::Rg => if c == 'n' || c == 'l' {
            Some(fd(FlagArity::Flag, false))
        } else {
            None
        },
    }
}

fn lookup_long_of(t: FlagTable, name: &[char]) -> (r: Option<FlagDef>)
    ensures
        r == lookup_long(t, name@),
{
    match t {
        FlagTable::GitGlobal => if eq_lit(name, "git-dir") || eq_lit(name, "work-tree") {
            Some(FlagDef { arity: FlagArity::EqOrValue, path_value: true })
        } else if eq_lit(name, "namespace") {
            Some(FlagDef { arity: FlagArity::EqOrValue, path_value: false })
        } else if eq_lit(name, "paginate") || eq_lit(name, "no-pager") || eq_lit(name, "bare")
            || eq_lit(name, "no-replace-objects") || eq_lit(name, "literal-pathspecs") {
            Some(FlagDef { arity: FlagArity::Flag, path_value: false })
        } else {
            None
        },
        FlagTable::Cargo => if eq_lit(name, "package") {
            Some(FlagDef { arity: FlagArity::TakesValue, path_value: false })
        } else if eq_lit(name, "manifest-path") || eq_lit(name, "target-dir") {
            Some(FlagDef { arity: FlagArity::EqOrValue, path_value: true })
        } else if eq_lit(name, "all") || eq_lit(name, "quiet") || eq_lit(name, "verbose") {
            Some(FlagDef { arity: FlagArity::Flag, path_value: false })
        } else {
            None
        },
        FlagTable::GitStatus => if eq_lit(name, "short") || eq_lit(name, "branch") {
            Some(FlagDef { arity: FlagArity::Flag, path_value: false })
        } else {
            None
        },
        FlagTable::GitDiff => if eq_lit(name, "stat") {
            Some(FlagDef { arity: FlagArity::Flag, path_value: false })
        } else {
            None
        },
        FlagTable::GitLog => if eq_lit(name, "oneline") {
            Some(FlagDef { arity: FlagArity::Flag, path_value: false })
        } else if eq_lit(name, "max-count") {
            Some(FlagDef { arity: FlagArity::TakesValue, path_value: false })
        } else {
            None
        },
        FlagTable::Rg => if eq_lit(name, "line-number") || eq_lit(name, "files-with-matches") {
            Some(FlagDef { arity: FlagArity::Flag, path_value: false })
        } else {
            None
        },
    }
}

fn lookup_short_of(t: FlagTable, c: char) -> (r: Option<FlagDef>)
    ensures
        r == lookup_short(t, c),
{
    match t {
        FlagTable::GitGlobal => if c == 'p' || c == 'P' {
            Some(FlagDef { arity: FlagArity::Flag, path_value: false })
        } else {
            None
        },
        FlagTable::Cargo => if c == 'p' {
            Some(FlagDef { arity: FlagArity::TakesValue, path_value: false })
        } else if c == 'q' || c == 'v' {
            Some(FlagDef { arity: FlagArity::Flag, path_value: false })
        } else {
            None
        },
        FlagTable::GitStatus => if c == 's' || c == 'b' {
            Some(FlagDef { arity: FlagArity::Flag, path_value: false })
        } else {
            None
        },
        FlagTable::GitDiff => None,
        FlagTable::GitLog => if c == 'n' {
            Some(FlagDef { arity: FlagArity::TakesValue, path_value: false })
        } else {
            None
        },
        FlagTable::Rg => if c == 'n' || c == 'l' {
            Some(FlagDef { arity: FlagArity::Flag, path_value: false })
        } else {
            None
        },
    }
}

// ---------------------------------------------------------------------
// git global options
// ---------------------------------------------------------------------

/// A path value that fails the root check (never when `root` is `None`).
pub open spec fn bad_path(root: Option<Seq<char>>, v: Seq<char>) -> bool {
    match root {
        Some(r) => !inside(r, v),
        None => false,
    }
}

/// `rest` is a cluster of the short git globals `-C`, `-P`, `-p`.
pub open spec fn git_cluster_known(rest: Seq<char>) -> bool {
    rest.len() > 0 && forall|k: int| 0 <= k < rest.len() ==> (rest[k] == 'C' || rest[k] == 'P'
        || rest[k] == 'p')
}

/// One step over the git global option at `args[i]`: the next index and
/// whether to stop (unknown option, or a path value outside the root).
pub open spec fn git_global_step(args: Seq<Seq<char>>, i: int, root: Option<Seq<char>>) -> (
    int,
    bool,
) {
    if i < 0 || i >= args.len() {
        (i, false)
    } else {
        let a = args[i];
        if a == "-"@ {
            (i + 1, true)
        } else if a == "-c"@ || (starts_with(a, "-c"@) && !starts_with(a, "-C"@)) {
            if a == "-c"@ && i + 1 < args.len() {
                (i + 2, true)
            } else {
                (i + 1, true)
            }
        } else if a == "-C"@ {
            if i + 1 < args.len() {
                (i + 2, bad_path(root, args[i + 1]))
            } else {
                (i + 1, false)
            }
        } else if starts_with(a, "-C"@) && a.len() > 2 {
            (i + 1, bad_path(root, a.skip(2)))
        } else if long_flag_name(a) is Some {
            match lookup_long(FlagTable::GitGlobal, long_flag_name(a)->0) {
                Some(def) => {
                    let takes = def.arity != FlagArity::Flag;
                    let inline = after_first(a, '=');
                    let (value, j): (Option<Seq<char>>, int) = if inline is Some {
                        (inline, i + 1)
                    } else if takes && i + 1 < args.len() {
                        (Some(args[i + 1]), i + 2)
                    } else {
                        (None, i + 1)
                    };
                    (j, def.path_value && value is Some && bad_path(root, value->0))
                },
                None => (i + 1, true),
            }
        } else if starts_with(a, "-"@) {
            let rest = a.skip(1);
            if rest.len() == 0 {
                (i + 1, true)
            } else if git_cluster_known(rest) {
                if rest.contains('C') {
                    if i + 1 >= args.len() {
                        (i + 1, true)
                    } else {
                        (i + 2, bad_path(root, args[i + 1]))
                    }
                } else {
                    (i + 1, false)
                }
            } else {
                (i + 1, true)
            }
        } else {
            (i, false)
        }
    }
}

/// One step over git's global options: past the end, or at a token that
/// does not start with `-`, it stays put and does not stop; at a token
/// that starts with `-` it moves forward by one or two tokens, never past
/// the end (so the loops over global options terminate).
pub proof fn lemma_git_global_step(args: Seq<Seq<char>>, i: int, root: Option<Seq<char>>)
    requires
        0 <= i,
    ensures
        i >= args.len() ==> git_global_step(args, i, root) == (i, false),
        i < args.len() && !starts_with(args[i], "-"@) ==> git_global_step(args, i, root) == (
            i,
            false,
        ),
        i < args.len() && starts_with(args[i], "-"@) ==> {
            let next = git_global_step(args, i, root).0;
            &&& i < next
            &&& next <= i + 2
            &&& next <= args.len()
        },
        i <= args.len() ==> i <= git_global_step(args, i, root).0 <= args.len(),
{
    reveal_strlit("-");
    reveal_strlit("--");
    reveal_strlit("-c");
    reveal_strlit("-C");
    if i < args.len() {
        let a = args[i];
        if !starts_with(a, "-"@) {
            assert(!(a == "-"@)) by {
                if a == "-"@ {
                    assert(a.take(1) =~= "-"@);
                }
            }
            assert(!starts_with(a, "-c"@)) by {
                if starts_with(a, "-c"@) {
                    assert(a.take(2)[0] == '-');
                    assert(a.take(1) =~= "-"@);
                }
            }
            assert(!starts_with(a, "-C"@)) by {
                if starts_with(a, "-C"@) {
                    assert(a.take(2)[0] == '-');
                    assert(a.take(1) =~= "-"@);
                }
            }
            assert(!starts_with(a, "--"@)) by {
                if starts_with(a, "--"@) {
                    assert(a.take(2)[0] == '-');
                    assert(a.take(1) =~= "-"@);
                }
            }
            assert(!(a == "-c"@)) by {
                if a == "-c"@ {
                    assert(a.take(1) =~= "-"@);
                }
            }
            assert(!(a == "-C"@)) by {
                if a == "-C"@ {
                    assert(a.take(1) =~= "-"@);
                }
            }
            assert(long_flag_name(a) is None);
            assert(git_global_step(args, i, root) == (i, false));
        }
        if starts_with(a, "-"@) && !(a == "-"@) && !(a == "-c"@ || (starts_with(a, "-c"@)
            && !starts_with(a, "-C"@))) && !(a == "-C"@) && !(starts_with(a, "-C"@) && a.len() > 2)
            && !(long_flag_name(a) is Some) {
            assert(a.len() >= 1);
        }
    }
}

/// The root as a specification value.
pub open spec fn root_view(root: Option<&[char]>) -> Option<Seq<char>> {
    match root {
        Some(x) => Some(x@),
        None => None,
    }
}

fn is_bad_path(root: Option<&[char]>, v: &[char]) -> (r: bool)
    ensures
        r == bad_path(root_view(root), v@),
{
    match root {
        Some(rt) => !inside_root(rt, v),
        None => false,
    }
}

fn cluster_known(rest: &[char]) -> (r: bool)
    ensures
        r == git_cluster_known(rest@),
{
    if rest.len() == 0 {
        return false;
    }
    let mut k: usize = 0;
    while k < rest.len()
        invariant
            k <= rest.len(),
            forall|j: int| 0 <= j < k ==> (rest@[j] == 'C' || rest@[j] == 'P' || rest@[j] == 'p'),
        decreases rest.len() - k,
    {
        let c = rest[k];
        if !(c == 'C' || c == 'P' || c == 'p') {
            return false;
        }
        k = k + 1;
    }
    true
}

/// One step over a git global option; see [`git_global_step`].
fn advance_git_global(args: &[Vec<char>], i: usize, root: Option<&[char]>) -> (r: (usize, bool))
    requires
        i <= args.len(),
    ensures
        r.0 == git_global_step(cvs_view(args@), i as int, root_view(root)).0,
        r.1 == git_global_step(cvs_view(args@), i as int, root_view(root)).1,
        i == args.len() ==> r.0 == i && !r.1,
        i < args.len() && !starts_with(args@[i as int]@, "-"@) ==> r.0 == i && !r.1,
        i < args.len() && starts_with(args@[i as int]@, "-"@) ==> i < r.0 <= i + 2 && r.0
            <= args.len(),
{
    proof {
        lemma_git_global_step(cvs_view(args@), i as int, root_view(root));
        if i < args.len() {
            assert(cvs_view(args@)[i as int] == args@[i as int]@);
        }
    }
    proof {
        reveal_strlit("-");
        reveal_strlit("-c");
        reveal_strlit("-C");
    }
    let ghost av = cvs_view(args@);
    if i >= args.len() {
        return (i, false);
    }
    let a = args[i].as_slice();
    assert(a@ == av[i as int]);
    if eq_lit(a, "-") {
        return (i + 1, true);
    }
    if eq_lit(a, "-c") || (starts_with_lit(a, "-c") && !starts_with_lit(a, "-C")) {
        if eq_lit(a, "-c") && i + 1 < args.len() {
            return (i + 2, true);
        }
        return (i + 1, true);
    }
    if eq_lit(a, "-C") {
        if i + 1 < args.len() {
            assert(args@[i + 1]@ == av[i + 1]);
            let bad = is_bad_path(root, args[i + 1].as_slice());
            return (i + 2, bad);
        }
        return (i + 1, false);
    }
    if starts_with_lit(a, "-C") && a.len() > 2 {
        let v = sub_chars(a, 2, a.len());
        assert(v@ == a@.skip(2));
        let bad = is_bad_path(root, v.as_slice());
        return (i + 1, bad);
    }
    match long_flag_name_of(a) {
        Some(name) => {
            match lookup_long_of(FlagTable::GitGlobal, name.as_slice()) {
                Some(def) => {
                    let takes = def.arity != FlagArity::Flag;
                    let inline = after_eq(a);
                    let mut j = i + 1;
                    let bad = match inline {
                        Some(v) => def.path_value && is_bad_path(root, v.as_slice()),
                        None => {
                            if takes && j < args.len() {
                                assert(args@[j as int]@ == av[j as int]);
                                let bad = def.path_value && is_bad_path(root, args[j].as_slice());
                                j = j + 1;
                                bad
                            } else {
                                false
                            }
                        },
                    };
                    return (j, bad);
                },
                None => {
                    return (i + 1, true);
                },
            }
        },
        None => {},
    }
    if starts_with_lit(a, "-") {
        let rest = sub_chars(a, 1, a.len());
        assert(rest@ == a@.skip(1));
        if rest.len() == 0 {
            return (i + 1, true);
        }
        if cluster_known(rest.as_slice()) {
            if has_char(rest.as_slice(), 'C') {
                if i + 1 >= args.len() {
                    return (i + 1, true);
                }
                assert(args@[i + 1]@ == av[i + 1]);
                let bad = is_bad_path(root, args[i + 1].as_slice());
                return (i + 2, bad);
            }
            return (i + 1, false);
        }
        return (i + 1, true);
    }
    (i, false)
}

/// Index of the first argument after the leading git global options
/// (deny-side normalization: path values are not checked).
pub open spec fn skip_globals(args: Seq<Seq<char>>, i: int) -> int
    decreases args.len() - i,
{
    if i < 0 || i >= args.len() || !starts_with(args[i], "-"@) {
        i
    } else {
        let (j, stop) = git_global_step(args, i, None);
        if stop || j <= i || j > args.len() {
            j
        } else {
            skip_globals(args, j)
        }
    }
}

/// `argv` with `git`'s leading global options removed.
pub open spec fn normalized(argv: Seq<Seq<char>>) -> Seq<Seq<char>> {
    if argv.len() == 0 {
        argv
    } else if basename(argv[0]) != "git"@ {
        argv
    } else {
        let args = argv.skip(1);
        seq![argv[0]] + args.skip(skip_globals(args, 0))
    }
}

fn copy_cv(v: &Vec<char>) -> (r: Vec<char>)
    ensures
        r@ == v@,
{
    let r = sub_chars(v.as_slice(), 0, v.len());
    assert(r@ == v@);
    r
}

fn normalized_argv(argv: &[Vec<char>]) -> (r: Vec<Vec<char>>)
    ensures
        cvs_view(r@) == normalized(cvs_view(argv@)),
{
    let ghost av = cvs_view(argv@);
    if argv.len() == 0 {
        let r: Vec<Vec<char>> = Vec::new();
        assert(cvs_view(r@) =~= av);
        return r;
    }
    let prog = basename_of(argv[0].as_slice());
    let is_git = eq_lit(prog.as_slice(), "git");
    let mut out: Vec<Vec<char>> = Vec::new();
    if !is_git {
        let mut k: usize = 0;
        while k < argv.len()
            invariant
                k <= argv.len(),
                cvs_view(out@) == av.take(k as int),
                av == cvs_view(argv@),
            decreases argv.len() - k,
        {
            let ghost before = out@;
            out.push(copy_cv(&argv[k]));
            assert(cvs_view(out@) =~= cvs_view(before).push(av[k as int]));
            assert(av.take(k + 1) =~= av.take(k as int).push(av[k as int]));
            k = k + 1;
        }
        assert(av.take(argv.len() as int) =~= av);
        return out;
    }
    let args = &argv[1..argv.len()];
    let ghost sv = cvs_view(args@);
    assert(sv =~= av.skip(1));
    let mut i: usize = 0;
    while i < args.len()
        invariant_except_break
            skip_globals(sv, 0) == skip_globals(sv, i as int),
        invariant
            i <= args.len(),
            sv == cvs_view(args@),
        ensures
            i <= args.len(),
            i == skip_globals(sv, 0),
        decreases args.len() - i,
    {
        assert(args@[i as int]@ == sv[i as int]);
        if !starts_with_lit(args[i].as_slice(), "-") {
            break;
        }
        proof {
            lemma_git_global_step(sv, i as int, None);
        }
        let before = i;
        let (j, stop) = advance_git_global(args, i, None);
        proof {
            assert(root_view(None) == None::<Seq<char>>);
        }
        i = j;
        if stop {
            break;
        }
        if i == before {
            break;
        }
    }
    out.push(copy_cv(&argv[0]));
    let mut k: usize = i;
    assert(cvs_view(out@) =~= seq![av[0]]);
    while k < args.len()
        invariant
            i <= k <= args.len(),
            sv == cvs_view(args@),
            cvs_view(out@) == seq![av[0]] + sv.subrange(i as int, k as int),
        decreases args.len() - k,
    {
        let ghost before = out@;
        out.push(copy_cv(&args[k]));
        assert(cvs_view(out@) =~= cvs_view(before).push(sv[k as int]));
        assert(sv.subrange(i as int, k + 1) =~= sv.subrange(i as int, k as int).push(
            sv[k as int],
        ));
        k = k + 1;
    }
    assert(sv.subrange(i as int, args.len() as int) =~= sv.skip(i as int));
    out
}

// ---------------------------------------------------------------------
// Built-in deny list
// ---------------------------------------------------------------------

/// Some short-flag cluster in `args` holds `c`.
pub open spec fn has_short(args: Seq<Seq<char>>, c: char) -> bool {
    exists|k: int| 0 <= k < args.len() && short_cluster(args[k]) && args[k].contains(c)
}

/// Some argument is the option `name`.
pub open spec fn has_arg(args: Seq<Seq<char>>, name: Seq<char>) -> bool {
    exists|k: int| 0 <= k < args.len() && arg_is(args[k], name)
}

/// `rm` arguments that ask for recursive and forced removal.
pub open spec fn rm_recursive_force(args: Seq<Seq<char>>) -> bool {
    (has_short(args, 'r') || has_short(args, 'R') || has_arg(args, "--recursive"@)) && (has_short(
        args,
        'f',
    ) || has_arg(args, "--force"@))
}

/// A `git push` argument that forces the push.
pub open spec fn push_force_arg(a: Seq<char>) -> bool {
    arg_is(a, "--force"@) || starts_with(a, "--force-with-lease"@) || starts_with(a, "+"@) || (
    starts_with(a, "-"@) && !starts_with(a, "--"@) && a.skip(1).contains('f'))
}

/// A `git clean` argument that forces the clean.
pub open spec fn clean_force_arg(a: Seq<char>) -> bool {
    arg_is(a, "--force"@) || arg_is(a, "-f"@) || (starts_with(a, "-"@) && !starts_with(a, "--"@)
        && a.skip(1).contains('f'))
}

/// Some `push` word is followed by a forcing argument.
pub open spec fn git_push_force(args: Seq<Seq<char>>) -> bool {
    exists|i: int, k: int|
        0 <= i < k < args.len() && args[i] == "push"@ && push_force_arg(args[k])
}

/// Some `reset` word is followed by `--hard`.
pub open spec fn git_reset_hard(args: Seq<Seq<char>>) -> bool {
    exists|i: int, k: int|
        0 <= i <= k < args.len() && args[i] == "reset"@ && arg_is(args[k], "--hard"@)
}

/// Some `clean` word is followed by a forcing argument.
pub open spec fn git_clean_force(args: Seq<Seq<char>>) -> bool {
    exists|i: int, k: int|
        0 <= i < k < args.len() && args[i] == "clean"@ && clean_force_arg(args[k])
}

/// The built-in refusals, on a normalized argv.
pub open spec fn builtin_deny(norm: Seq<Seq<char>>) -> Option<SVerdict> {
    if norm.len() == 0 {
        None
    } else {
        let prog = basename(norm[0]);
        let args = norm.skip(1);
        if prog == "rm"@ && rm_recursive_force(args) {
            Some(SVerdict::Block("denylist: rm recursive+force"@))
        } else if prog == "git"@ && git_push_force(args) {
            Some(SVerdict::Block("denylist: git push --force"@))
        } else if prog == "git"@ && git_reset_hard(args) {
            Some(SVerdict::Block("denylist: git reset --hard"@))
        } else if prog == "git"@ && git_clean_force(args) {
            Some(SVerdict::Block("denylist: git clean --force"@))
        } else if prog == "dd"@ || prog == "mkfs"@ {
            Some(SVerdict::Block("denylist: "@ + prog))
        } else {
            None
        }
    }
}

fn any_short(args: &[Vec<char>], c: char) -> (r: bool)
    ensures
        r == has_short(cvs_view(args@), c),
{
    let ghost av = cvs_view(args@);
    let mut k: usize = 0;
    while k < args.len()
        invariant
            k <= args.len(),
            av == cvs_view(args@),
            forall|j: int| 0 <= j < k ==> !(short_cluster(av[j]) && av[j].contains(c)),
        decreases args.len() - k,
    {
        assert(args@[k as int]@ == av[k as int]);
        if is_short_cluster(args[k].as_slice()) && has_char(args[k].as_slice(), c) {
            return true;
        }
        k = k + 1;
    }
    false
}

fn any_arg(args: &[Vec<char>], name: &str) -> (r: bool)
    ensures
        r == has_arg(cvs_view(args@), name@),
{
    let ghost av = cvs_view(args@);
    let mut k: usize = 0;
    while k < args.len()
        invariant
            k <= args.len(),
            av == cvs_view(args@),
            forall|j: int| 0 <= j < k ==> !arg_is(av[j], name@),
        decreases args.len() - k,
    {
        assert(args@[k as int]@ == av[k as int]);
        if arg_is_lit(args[k].as_slice(), name) {
            return true;
        }
        k = k + 1;
    }
    false
}

fn has_rm_recursive_force(args: &[Vec<char>]) -> (r: bool)
    ensures
        r == rm_recursive_force(cvs_view(args@)),
{
    let r = any_short(args, 'r') || any_short(args, 'R') || any_arg(args, "--recursive");
    let f = any_short(args, 'f') || any_arg(args, "--force");
    r && f
}

fn is_push_force_arg(a: &[char]) -> (r: bool)
    ensures
        r == push_force_arg(a@),
{
    if arg_is_lit(a, "--force") || starts_with_lit(a, "--force-with-lease") || starts_with_lit(
        a,
        "+",
    ) {
        return true;
    }
    if starts_with_lit(a, "-") && !starts_with_lit(a, "--") {
        proof {
            reveal_strlit("-");
        }
        let rest = sub_chars(a, 1, a.len());
        assert(rest@ == a@.skip(1));
        return has_char(rest.as_slice(), 'f');
    }
    false
}

fn is_clean_force_arg(a: &[char]) -> (r: bool)
    ensures
        r == clean_force_arg(a@),
{
    if arg_is_lit(a, "--force") || arg_is_lit(a, "-f") {
        return true;
    }
    if starts_with_lit(a, "-") && !starts_with_lit(a, "--") {
        proof {
            reveal_strlit("-");
        }
        let rest = sub_chars(a, 1, a.len());
        assert(rest@ == a@.skip(1));
        return has_char(rest.as_slice(), 'f');
    }
    false
}

/// Which word-then-option pair to look for.
#[derive(Clone, Copy, PartialEq, Eq, Structural)]
enum PairKind {
    PushForce,
    ResetHard,
    CleanForce,
}

spec fn pair_word(kind: PairKind) -> Seq<char> {
    match kind {
        PairKind::PushForce => "push"@,
        PairKind::ResetHard => "reset"@,
        PairKind::CleanForce => "clean"@,
    }
}

spec fn pair_arg(kind: PairKind, a: Seq<char>) -> bool {
    match kind {
        PairKind::PushForce => push_force_arg(a),
        PairKind::ResetHard => arg_is(a, "--hard"@),
        PairKind::CleanForce => clean_force_arg(a),
    }
}

spec fn pair_found(kind: PairKind, args: Seq<Seq<char>>) -> bool {
    exists|i: int, k: int|
        0 <= i && (if kind == PairKind::ResetHard {
            i <= k
        } else {
            i < k
        }) && k < args.len() && args[i] == pair_word(kind) && pair_arg(kind, args[k])
}

fn is_pair_arg(kind: &PairKind, a: &[char]) -> (r: bool)
    ensures
        r == pair_arg(*kind, a@),
{
    match kind {
        PairKind::PushForce => is_push_force_arg(a),
        PairKind::ResetHard => arg_is_lit(a, "--hard"),
        PairKind::CleanForce => is_clean_force_arg(a),
    }
}

fn is_pair_word(kind: &PairKind, a: &[char]) -> (r: bool)
    ensures
        r == (a@ == pair_word(*kind)),
{
    match kind {
        PairKind::PushForce => eq_lit(a, "push"),
        PairKind::ResetHard => eq_lit(a, "reset"),
        PairKind::CleanForce => eq_lit(a, "clean"),
    }
}

fn find_pair(kind: PairKind, args: &[Vec<char>]) -> (r: bool)
    ensures
        r == pair_found(kind, cvs_view(args@)),
{
    let ghost av = cvs_view(args@);
    let mut i: usize = 0;
    while i < args.len()
        invariant
            i <= args.len(),
            av == cvs_view(args@),
            forall|i2: int, k2: int|
                0 <= i2 < i && (if kind == PairKind::ResetHard {
                    i2 <= k2
                } else {
                    i2 < k2
                }) && k2 < av.len() && av[i2] == pair_word(kind) ==> !pair_arg(kind, av[k2]),
        decreases args.len() - i,
    {
        assert(args@[i as int]@ == av[i as int]);
        if is_pair_word(&kind, args[i].as_slice()) {
            let mut k: usize = if kind == PairKind::ResetHard {
                i
            } else {
                i + 1
            };
            while k < args.len()
                invariant
                    i < args.len(),
                    i <= k <= args.len(),
                    kind != PairKind::ResetHard ==> i < k,
                    av == cvs_view(args@),
                    av[i as int] == pair_word(kind),
                    forall|k2: int|
                        (if kind == PairKind::ResetHard {
                            i <= k2
                        } else {
                            i < k2
                        }) && k2 < k ==> !pair_arg(kind, av[k2]),
                decreases args.len() - k,
            {
                assert(args@[k as int]@ == av[k as int]);
                if is_pair_arg(&kind, args[k].as_slice()) {
                    return true;
                }
                k = k + 1;
            }
        }
        i = i + 1;
    }
    false
}

fn builtin_deny_on_normalized(norm: &[Vec<char>]) -> (r: Option<Verdict>)
    ensures
        match r {
            Some(v) => builtin_deny(cvs_view(norm@)) == Some(v.sv()),
            None => builtin_deny(cvs_view(norm@)) is None,
        },
{
    let ghost nv = cvs_view(norm@);
    if norm.len() == 0 {
        return None;
    }
    assert(norm@[0]@ == nv[0]);
    let prog = basename_of(norm[0].as_slice());
    let args = &norm[1..norm.len()];
    assert(cvs_view(args@) =~= nv.skip(1));
    let ghost av = cvs_view(args@);
    proof {
        assert(pair_found(PairKind::PushForce, av) == git_push_force(av));
        assert(pair_found(PairKind::ResetHard, av) == git_reset_hard(av));
        assert(pair_found(PairKind::CleanForce, av) == git_clean_force(av));
    }
    if eq_lit(prog.as_slice(), "rm") && has_rm_recursive_force(args) {
        return Some(Verdict::Block(string_from_lit("denylist: rm recursive+force")));
    }
    let is_git = eq_lit(prog.as_slice(), "git");
    if is_git && find_pair(PairKind::PushForce, args) {
        return Some(Verdict::Block(string_from_lit("denylist: git push --force")));
    }
    if is_git && find_pair(PairKind::ResetHard, args) {
        return Some(Verdict::Block(string_from_lit("denylist: git reset --hard")));
    }
    if is_git && find_pair(PairKind::CleanForce, args) {
        return Some(Verdict::Block(string_from_lit("denylist: git clean --force")));
    }
    if eq_lit(prog.as_slice(), "dd") || eq_lit(prog.as_slice(), "mkfs") {
        let mut m: Vec<char> = Vec::new();
        push_str_chars(&mut m, "denylist: ");
        push_chars(&mut m, prog.as_slice());
        return Some(Verdict::Block(string_from(m.as_slice())));
    }
    None
}

fn string_from_lit(s: &str) -> (r: String)
    ensures
        r@ == s@,
{
    let cs = chars_of(s);
    string_from(cs.as_slice())
}

// ---------------------------------------------------------------------
// Prefix rules
// ---------------------------------------------------------------------

/// `argv` opens with `prefix`; the program is compared by basename.
pub open spec fn prefix_match(argv: Seq<Seq<char>>, prefix: Seq<Seq<char>>) -> bool {
    &&& argv.len() >= prefix.len()
    &&& prefix.len() > 0 ==> basename(argv[0]) == basename(prefix[0])
    &&& forall|i: int| 1 <= i < prefix.len() ==> argv[i] == #[trigger] prefix[i]
}

/// Index of the first prefix in `ps` that `argv` opens with.
pub open spec fn first_match(argv: Seq<Seq<char>>, ps: Seq<Seq<Seq<char>>>) -> Option<int>
    decreases ps.len(),
{
    if ps.len() == 0 {
        None
    } else if prefix_match(argv, ps[0]) {
        Some(0)
    } else {
        match first_match(argv, ps.drop_first()) {
            Some(k) => Some(k + 1),
            None => None,
        }
    }
}

/// `first_match` finds the first matching prefix.
pub proof fn lemma_first_match(argv: Seq<Seq<char>>, ps: Seq<Seq<Seq<char>>>)
    ensures
        match first_match(argv, ps) {
            Some(k) => 0 <= k < ps.len() && prefix_match(argv, ps[k]) && forall|j: int|
                0 <= j < k ==> !prefix_match(argv, ps[j]),
            None => forall|j: int| 0 <= j < ps.len() ==> !prefix_match(argv, ps[j]),
        },
    decreases ps.len(),
{
    if ps.len() > 0 && !prefix_match(argv, ps[0]) {
        lemma_first_match(argv, ps.drop_first());
        assert forall|j: int| 0 < j < ps.len() implies ps[j] == ps.drop_first()[j - 1] by {}
    }
}

/// Deterministic refusal: built-in denials, then the custom deny list.
pub open spec fn hard_deny(argv: Seq<Seq<char>>, deny: Seq<Seq<Seq<char>>>) -> Option<SVerdict> {
    let norm = normalized(argv);
    match builtin_deny(norm) {
        Some(v) => Some(v),
        None => match first_match(norm, deny) {
            Some(k) => Some(SVerdict::Block("denylist: "@ + join(deny[k], " "@))),
            None => None,
        },
    }
}

fn argv_prefix_match(argv: &[Vec<char>], prefix: &[Vec<char>]) -> (r: bool)
    ensures
        r == prefix_match(cvs_view(argv@), cvs_view(prefix@)),
{
    let ghost av = cvs_view(argv@);
    let ghost pv = cvs_view(prefix@);
    if argv.len() < prefix.len() {
        return false;
    }
    let mut i: usize = 0;
    while i < prefix.len()
        invariant
            i <= prefix.len() <= argv.len(),
            av == cvs_view(argv@),
            pv == cvs_view(prefix@),
            i > 0 ==> basename(av[0]) == basename(pv[0]),
            forall|j: int| 1 <= j < i ==> av[j] == #[trigger] pv[j],
        decreases prefix.len() - i,
    {
        assert(argv@[i as int]@ == av[i as int]);
        assert(prefix@[i as int]@ == pv[i as int]);
        if i == 0 {
            let a = basename_of(argv[0].as_slice());
            let b = basename_of(prefix[0].as_slice());
            if !chars_eq(a.as_slice(), b.as_slice()) {
                return false;
            }
        } else if !chars_eq(argv[i].as_slice(), prefix[i].as_slice()) {
            return false;
        }
        i = i + 1;
    }
    true
}

fn hard_deny_of(argv: &[Vec<char>], rules: &Rules) -> (r: Option<Verdict>)
    ensures
        match r {
            Some(v) => hard_deny(cvs_view(argv@), prefixes_view(rules.deny@)) == Some(v.sv()),
            None => hard_deny(cvs_view(argv@), prefixes_view(rules.deny@)) is None,
        },
{
    let norm = normalized_argv(argv);
    let ghost nv = cvs_view(norm@);
    let ghost ps = prefixes_view(rules.deny@);
    match builtin_deny_on_normalized(norm.as_slice()) {
        Some(v) => {
            return Some(v);
        },
        None => {},
    }
    proof {
        lemma_first_match(nv, ps);
    }
    let mut k: usize = 0;
    while k < rules.deny.len()
        invariant
            k <= rules.deny.len(),
            nv == cvs_view(norm@),
            ps == prefixes_view(rules.deny@),
            nv == normalized(cvs_view(argv@)),
            builtin_deny(nv) is None,
            forall|j: int| 0 <= j < k ==> !prefix_match(nv, ps[j]),
        decreases rules.deny.len() - k,
    {
        let prefix = to_cvs(rules.deny[k].as_slice());
        assert(cvs_view(prefix@) == ps[k as int]);
        if argv_prefix_match(norm.as_slice(), prefix.as_slice()) {
            let mut m: Vec<char> = Vec::new();
            push_str_chars(&mut m, "denylist: ");
            let sep = chars_of(" ");
            push_join(&mut m, prefix.as_slice(), sep.as_slice());
            proof {
                lemma_first_match(nv, ps);
                reveal_strlit(" ");
            }
            assert(first_match(nv, ps) == Some(k as int));
            return Some(Verdict::Block(string_from(m.as_slice())));
        }
        k = k + 1;
    }
    proof {
        lemma_first_match(nv, ps);
    }
    None
}

// ---------------------------------------------------------------------
// Allow schema
// ---------------------------------------------------------------------

/// Long options that are never allowed (they can run programs or write).
pub open spec fn refused_long(name: Seq<char>) -> bool {
    name == "output"@ || name == "textconv"@ || name == "ext-diff"@ || name == "config"@
}

/// `rest` is one ASCII character (one byte).
pub open spec fn single_ascii(rest: Seq<char>) -> bool {
    rest.len() == 1 && (rest[0] as u32) < 128
}

/// Every character of `rest` is a known stand-alone short flag of `t`.
pub open spec fn all_short_flags(t: FlagTable, rest: Seq<char>) -> bool {
    forall|k: int|
        0 <= k < rest.len() ==> match #[trigger] lookup_short(t, rest[k]) {
            Some(d) => d.arity == FlagArity::Flag,
            None => false,
        }
}

/// One step of the schema over `args[i]` with flag table `t`:
/// `Some(true)` with the next index when the token (and its value) is
/// accepted, `Some(false)` or `None` when it is not.
pub open spec fn one_flag(args: Seq<Seq<char>>, i: int, t: FlagTable, root: Seq<char>) -> (
    Option<bool>,
    int,
) {
    if i < 0 || i >= args.len() {
        (Some(false), i)
    } else {
        let a = args[i];
        match long_flag_name(a) {
            Some(name) => if refused_long(name) {
                (Some(false), i)
            } else {
                match lookup_long(t, name) {
                    None => (None, i),
                    Some(def) => {
                        let inline = after_first(a, '=');
                        let (value, j): (Option<Seq<char>>, int) = if def.arity
                            == FlagArity::Flag {
                            (None, i + 1)
                        } else if inline is Some {
                            (inline, i + 1)
                        } else if i + 1 < args.len() {
                            (Some(args[i + 1]), i + 2)
                        } else {
                            (None, i + 1)
                        };
                        if def.path_value && value is Some && !inside(root, value->0) {
                            (Some(false), j)
                        } else {
                            (Some(true), j)
                        }
                    },
                }
            },
            None => if starts_with(a, "-"@) {
                let rest = a.skip(1);
                if rest.len() == 0 {
                    (Some(false), i)
                } else if single_ascii(rest) {
                    match lookup_short(t, rest[0]) {
                        None => (None, i),
                        Some(def) => if def.arity != FlagArity::Flag {
                            if i + 1 >= args.len() {
                                (Some(false), i + 1)
                            } else if def.path_value && !inside(root, args[i + 1]) {
                                (Some(false), i + 2)
                            } else {
                                (Some(true), i + 2)
                            }
                        } else {
                            (Some(true), i + 1)
                        },
                    }
                } else if all_short_flags(t, rest) {
                    (Some(true), i + 1)
                } else {
                    (Some(false), i)
                }
            } else {
                (Some(true), i + 1)
            },
        }
    }
}

/// An accepted step moves forward within the arguments.
pub proof fn lemma_one_flag(args: Seq<Seq<char>>, i: int, t: FlagTable, root: Seq<char>)
    requires
        0 <= i < args.len(),
    ensures
        one_flag(args, i, t, root).0 == Some(true) ==> i < one_flag(args, i, t, root).1 <= args.len(),
{
}

/// Every token from `args[i]` on is accepted by table `t`.
pub open spec fn flags_ok(args: Seq<Seq<char>>, i: int, t: FlagTable, root: Seq<char>) -> bool
    decreases args.len() - i,
{
    if i < 0 || i >= args.len() {
        true
    } else {
        let (r, j) = one_flag(args, i, t, root);
        r == Some(true) && i < j && j <= args.len() && flags_ok(args, j, t, root)
    }
}

fn lookup_short_for(t: FlagTable, rest: &[char]) -> (r: bool)
    ensures
        r == all_short_flags(t, rest@),
{
    let mut k: usize = 0;
    while k < rest.len()
        invariant
            k <= rest.len(),
            forall|j: int|
                0 <= j < k ==> match #[trigger] lookup_short(t, rest@[j]) {
                    Some(d) => d.arity == FlagArity::Flag,
                    None => false,
                },
        decreases rest.len() - k,
    {
        match lookup_short_of(t, rest[k]) {
            Some(d) => {
                if d.arity != FlagArity::Flag {
                    return false;
                }
            },
            None => {
                return false;
            },
        }
        k = k + 1;
    }
    true
}

/// One schema step over `args[i]`; see [`one_flag`].
fn advance_one_flag(args: &[Vec<char>], i: usize, t: FlagTable, root: &[char]) -> (r: (
    Option<bool>,
    usize,
))
    requires
        i <= args.len(),
    ensures
        r.0 == one_flag(cvs_view(args@), i as int, t, root@).0,
        r.1 == one_flag(cvs_view(args@), i as int, t, root@).1,
{
    let ghost av = cvs_view(args@);
    if i >= args.len() {
        return (Some(false), i);
    }
    let a = args[i].as_slice();
    assert(a@ == av[i as int]);
    match long_flag_name_of(a) {
        Some(name) => {
            let n = name.as_slice();
            if eq_lit(n, "output") || eq_lit(n, "textconv") || eq_lit(n, "ext-diff") || eq_lit(
                n,
                "config",
            ) {
                return (Some(false), i);
            }
            let def = match lookup_long_of(t, n) {
                Some(d) => d,
                None => {
                    return (None, i);
                },
            };
            let inline = after_eq(a);
            let mut j = i + 1;
            let bad = if def.arity == FlagArity::Flag {
                false
            } else {
                match inline {
                    Some(v) => def.path_value && !inside_root(root, v.as_slice()),
                    None => {
                        if j < args.len() {
                            assert(args@[j as int]@ == av[j as int]);
                            let b = def.path_value && !inside_root(root, args[j].as_slice());
                            j = j + 1;
                            b
                        } else {
                            false
                        }
                    },
                }
            };
            if bad {
                return (Some(false), j);
            }
            return (Some(true), j);
        },
        None => {},
    }
    if starts_with_lit(a, "-") {
        proof {
            reveal_strlit("-");
        }
        let rest = sub_chars(a, 1, a.len());
        assert(rest@ == a@.skip(1));
        if rest.len() == 0 {
            return (Some(false), i);
        }
        if rest.len() == 1 && (rest[0] as u32) < 128 {
            match lookup_short_of(t, rest[0]) {
                None => {
                    return (None, i);
                },
                Some(def) => {
                    if def.arity != FlagArity::Flag {
                        if i + 1 >= args.len() {
                            return (Some(false), i + 1);
                        }
                        assert(args@[i + 1]@ == av[i + 1]);
                        if def.path_value && !inside_root(root, args[i + 1].as_slice()) {
                            return (Some(false), i + 2);
                        }
                        return (Some(true), i + 2);
                    }
                    return (Some(true), i + 1);
                },
            }
        }
        if lookup_short_for(t, rest.as_slice()) {
            return (Some(true), i + 1);
        }
        return (Some(false), i);
    }
    (Some(true), i + 1)
}

fn all_flags_ok(args: &[Vec<char>], start: usize, t: FlagTable, root: &[char]) -> (r: bool)
    requires
        start <= args.len(),
    ensures
        r == flags_ok(cvs_view(args@), start as int, t, root@),
{
    let ghost av = cvs_view(args@);
    let mut i = start;
    while i < args.len()
        invariant
            start <= i <= args.len(),
            av == cvs_view(args@),
            flags_ok(av, start as int, t, root@) == flags_ok(av, i as int, t, root@),
        decreases args.len() - i,
    {
        proof {
            lemma_one_flag(av, i as int, t, root@);
        }
        let (res, j) = advance_one_flag(args, i, t, root);
        if res != Some(true) {
            return false;
        }
        i = j;
    }
    true
}

/// Where the git allow check finds the subcommand: past the leading
/// global options, or `None` when one of them is refused.
pub open spec fn git_globals_allow(args: Seq<Seq<char>>, i: int, root: Seq<char>) -> Option<int>
    decreases args.len() - i,
{
    if i < 0 || i >= args.len() || !starts_with(args[i], "-"@) {
        Some(i)
    } else {
        let (j, stop) = git_global_step(args, i, Some(root));
        if stop || j <= i || j > args.len() {
            None
        } else {
            git_globals_allow(args, j, root)
        }
    }
}

/// The flag table of an allowed `git` subcommand.
pub open spec fn git_sub_table(sub: Seq<char>) -> Option<FlagTable> {
    if sub == "status"@ {
        Some(FlagTable::GitStatus)
    } else if sub == "diff"@ {
        Some(FlagTable::GitDiff)
    } else if sub == "log"@ {
        Some(FlagTable::GitLog)
    } else {
        None
    }
}

/// The flag table of an allowed `cargo` subcommand.
pub open spec fn cargo_sub_table(sub: Seq<char>) -> Option<FlagTable> {
    if sub == "test"@ || sub == "check"@ || sub == "build"@ {
        Some(FlagTable::Cargo)
    } else {
        None
    }
}

/// `git` arguments that the schema allows.
pub open spec fn git_allows(args: Seq<Seq<char>>, root: Seq<char>) -> bool {
    match git_globals_allow(args, 0, root) {
        None => false,
        Some(i) => 0 <= i < args.len() && match git_sub_table(args[i]) {
            Some(t) => flags_ok(args, i + 1, t, root),
            None => false,
        },
    }
}

/// A `cargo` argument that can change what runs.
pub open spec fn cargo_risky(a: Seq<char>) -> bool {
    arg_is(a, "--config"@) || starts_with(a, "-Z"@) || contains_seq(a, "runner"@) || contains_seq(
        a,
        "program"@,
    ) || arg_is(a, "--pre"@)
}

/// `cargo` arguments that the schema allows.
pub open spec fn cargo_allows(args: Seq<Seq<char>>, root: Seq<char>) -> bool {
    args.len() > 0 && match cargo_sub_table(args[0]) {
        Some(t) => flags_ok(args, 1, t, root) && forall|k: int|
            0 <= k < args.len() ==> !cargo_risky(#[trigger] args[k]),
        None => false,
    }
}

/// `ls` arguments that the schema allows: no flags but `--`, and paths
/// under the root.
pub open spec fn ls_allows(args: Seq<Seq<char>>, root: Seq<char>) -> bool {
    forall|k: int|
        0 <= k < args.len() ==> if starts_with(#[trigger] args[k], "-"@) {
            args[k] == "--"@
        } else {
            inside(root, args[k])
        }
}

/// The command is in the allow schema.
pub open spec fn schema_allows(argv: Seq<Seq<char>>, root: Seq<char>) -> bool {
    if argv.len() == 0 {
        false
    } else {
        let prog = basename(argv[0]);
        let args = argv.skip(1);
        if prog == "cargo"@ {
            cargo_allows(args, root)
        } else if prog == "git"@ {
            git_allows(args, root)
        } else if prog == "rg"@ {
            flags_ok(args, 0, FlagTable::Rg, root)
        } else if prog == "ls"@ {
            ls_allows(args, root)
        } else {
            false
        }
    }
}

/// The program has an allow schema (custom allow rules never cover it).
pub open spec fn has_allow_schema(prog: Seq<char>) -> bool {
    prog == "cargo"@ || prog == "git"@ || prog == "rg"@ || prog == "ls"@
}

/// Deterministic permission: the schema, or a single-word allow rule for
/// a lone program without a schema.
pub open spec fn hard_allow(
    argv: Seq<Seq<char>>,
    allow: Seq<Seq<Seq<char>>>,
    root: Seq<char>,
) -> Option<SVerdict> {
    if schema_allows(argv, root) {
        Some(SVerdict::Allow)
    } else if argv.len() != 1 {
        None
    } else if has_allow_schema(basename(argv[0])) {
        None
    } else if exists|k: int|
        0 <= k < allow.len() && #[trigger] allow[k].len() == 1 && prefix_match(argv, allow[k]) {
        Some(SVerdict::Allow)
    } else {
        None
    }
}

/// Refusals first, then permissions, else `None`.
pub open spec fn spec_rules_verdict(
    argv: Seq<Seq<char>>,
    allow: Seq<Seq<Seq<char>>>,
    deny: Seq<Seq<Seq<char>>>,
    root: Seq<char>,
) -> Option<SVerdict> {
    match hard_deny(argv, deny) {
        Some(v) => Some(v),
        None => hard_allow(argv, allow, root),
    }
}

fn parse_git_allow(args: &[Vec<char>], root: &[char]) -> (r: bool)
    ensures
        r == git_allows(cvs_view(args@), root@),
{
    let ghost av = cvs_view(args@);
    let mut i: usize = 0;
    while i < args.len()
        invariant_except_break
            git_globals_allow(av, 0, root@) == git_globals_allow(av, i as int, root@),
        invariant
            i <= args.len(),
            av == cvs_view(args@),
        ensures
            i <= args.len(),
            git_globals_allow(av, 0, root@) == Some(i as int),
        decreases args.len() - i,
    {
        assert(args@[i as int]@ == av[i as int]);
        if !starts_with_lit(args[i].as_slice(), "-") {
            break;
        }
        proof {
            lemma_git_global_step(av, i as int, Some(root@));
        }
        let before = i;
        let (j, stop) = advance_git_global(args, i, Some(root));
        if stop {
            return false;
        }
        if j == before {
            return false;
        }
        i = j;
    }
    if i >= args.len() {
        return false;
    }
    assert(args@[i as int]@ == av[i as int]);
    let sub = args[i].as_slice();
    let t = if eq_lit(sub, "status") {
        FlagTable::GitStatus
    } else if eq_lit(sub, "diff") {
        FlagTable::GitDiff
    } else if eq_lit(sub, "log") {
        FlagTable::GitLog
    } else {
        return false;
    };
    all_flags_ok(args, i + 1, t, root)
}

fn no_cargo_risky(args: &[Vec<char>]) -> (r: bool)
    ensures
        r == forall|k: int| 0 <= k < args@.len() ==> !cargo_risky(#[trigger] cvs_view(args@)[k]),
{
    let ghost av = cvs_view(args@);
    let mut k: usize = 0;
    while k < args.len()
        invariant
            k <= args.len(),
            av == cvs_view(args@),
            forall|j: int| 0 <= j < k ==> !cargo_risky(#[trigger] av[j]),
        decreases args.len() - k,
    {
        let a = args[k].as_slice();
        assert(a@ == av[k as int]);
        if arg_is_lit(a, "--config") || starts_with_lit(a, "-Z") || contains_lit(a, "runner")
            || contains_lit(a, "program") || arg_is_lit(a, "--pre") {
            assert(cargo_risky(av[k as int]));
            return false;
        }
        k = k + 1;
    }
    true
}

fn ls_args_ok(args: &[Vec<char>], root: &[char]) -> (r: bool)
    ensures
        r == ls_allows(cvs_view(args@), root@),
{
    let ghost av = cvs_view(args@);
    let mut k: usize = 0;
    while k < args.len()
        invariant
            k <= args.len(),
            av == cvs_view(args@),
            forall|j: int|
                0 <= j < k ==> if starts_with(#[trigger] av[j], "-"@) {
                    av[j] == "--"@
                } else {
                    inside(root@, av[j])
                },
        decreases args.len() - k,
    {
        let a = args[k].as_slice();
        assert(a@ == av[k as int]);
        if starts_with_lit(a, "-") {
            if !eq_lit(a, "--") {
                return false;
            }
        } else if !inside_root(root, a) {
            return false;
        }
        k = k + 1;
    }
    true
}

fn schema_allows_of(argv: &[Vec<char>], root: &[char]) -> (r: bool)
    ensures
        r == schema_allows(cvs_view(argv@), root@),
{
    let ghost av = cvs_view(argv@);
    if argv.len() == 0 {
        return false;
    }
    assert(argv@[0]@ == av[0]);
    let prog = basename_of(argv[0].as_slice());
    let args = &argv[1..argv.len()];
    assert(cvs_view(args@) =~= av.skip(1));
    let p = prog.as_slice();
    if eq_lit(p, "cargo") {
        if args.len() == 0 {
            return false;
        }
        assert(args@[0]@ == cvs_view(args@)[0]);
        let sub = args[0].as_slice();
        if !(eq_lit(sub, "test") || eq_lit(sub, "check") || eq_lit(sub, "build")) {
            return false;
        }
        let ok = all_flags_ok(args, 1, FlagTable::Cargo, root);
        if !ok {
            return false;
        }
        return no_cargo_risky(args);
    }
    if eq_lit(p, "git") {
        return parse_git_allow(args, root);
    }
    if eq_lit(p, "rg") {
        return all_flags_ok(args, 0, FlagTable::Rg, root);
    }
    if eq_lit(p, "ls") {
        return ls_args_ok(args, root);
    }
    false
}

/// Whether the built-in schema alone allows `argv` under `root`: a known
/// read-only or build command whose every flag is known and whose path
/// values stay under the root.
pub fn schema_allows_argv(argv: &[String], root: &str) -> (r: bool)
    ensures
        r == schema_allows(strs_view(argv@), root@),
{
    let av = to_cvs(argv);
    let rc = chars_of(root);
    schema_allows_of(av.as_slice(), rc.as_slice())
}

fn hard_allow_of(argv: &[Vec<char>], rules: &Rules, root: &[char]) -> (r: Option<Verdict>)
    ensures
        match r {
            Some(v) => hard_allow(cvs_view(argv@), prefixes_view(rules.allow@), root@) == Some(
                v.sv(),
            ),
            None => hard_allow(cvs_view(argv@), prefixes_view(rules.allow@), root@) is None,
        },
{
    let ghost av = cvs_view(argv@);
    let ghost ps = prefixes_view(rules.allow@);
    if schema_allows_of(argv, root) {
        return Some(Verdict::Allow);
    }
    if argv.len() != 1 {
        return None;
    }
    assert(argv@[0]@ == av[0]);
    let prog = basename_of(argv[0].as_slice());
    let p = prog.as_slice();
    if eq_lit(p, "cargo") || eq_lit(p, "git") || eq_lit(p, "rg") || eq_lit(p, "ls") {
        return None;
    }
    let mut k: usize = 0;
    while k < rules.allow.len()
        invariant
            k <= rules.allow.len(),
            av == cvs_view(argv@),
            ps == prefixes_view(rules.allow@),
            !schema_allows(av, root@),
            av.len() == 1,
            !has_allow_schema(basename(av[0])),
            forall|j: int|
                0 <= j < k ==> !(#[trigger] ps[j].len() == 1 && prefix_match(av, ps[j])),
        decreases rules.allow.len() - k,
    {
        let prefix = to_cvs(rules.allow[k].as_slice());
        assert(cvs_view(prefix@) == ps[k as int]);
        if prefix.len() == 1 && argv_prefix_match(argv, prefix.as_slice()) {
            assert(ps[k as int].len() == 1 && prefix_match(av, ps[k as int]));
            return Some(Verdict::Allow);
        }
        k = k + 1;
    }
    None
}

/// Deterministic verdict from [`Rules`], or `None` when the score-based
/// gate should judge: built-in and custom refusals first, then the allow
/// schema and single-word allow rules.
pub fn rules_verdict(argv: &[String], rules: &Rules, root: &str) -> (r: Option<Verdict>)
    ensures
        match r {
            Some(v) => spec_rules_verdict(
                strs_view(argv@),
                prefixes_view(rules.allow@),
                prefixes_view(rules.deny@),
                root@,
            ) == Some(v.sv()),
            None => spec_rules_verdict(
                strs_view(argv@),
                prefixes_view(rules.allow@),
                prefixes_view(rules.deny@),
                root@,
            ) is None,
        },
{
    let av = to_cvs(argv);
    match hard_deny_of(av.as_slice(), rules) {
        Some(v) => {
            return Some(v);
        },
        None => {},
    }
    let root_c = chars_of(root);
    hard_allow_of(av.as_slice(), rules, root_c.as_slice())
}

// ---------------------------------------------------------------------
// Default rules
// ---------------------------------------------------------------------

/// The default allow prefixes.
pub open spec fn default_allow() -> Seq<Seq<Seq<char>>> {
    seq![
        seq!["cargo"@, "test"@],
        seq!["cargo"@, "check"@],
        seq!["cargo"@, "build"@],
        seq!["git"@, "diff"@],
        seq!["git"@, "status"@],
        seq!["git"@, "log"@],
        seq!["rg"@],
        seq!["ls"@],
    ]
}

/// The default deny prefixes.
pub open spec fn default_deny() -> Seq<Seq<Seq<char>>> {
    seq![
        seq!["rm"@, "-rf"@],
        seq!["git"@, "push"@, "--force"@],
        seq!["git"@, "reset"@, "--hard"@],
        seq!["dd"@],
        seq!["mkfs"@],
    ]
}

fn words(a: &str, b: &str, c: &str, n: usize) -> (r: Vec<String>)
    requires
        1 <= n <= 3,
    ensures
        strs_view(r@) == (if n == 1 {
            seq![a@]
        } else if n == 2 {
            seq![a@, b@]
        } else {
            seq![a@, b@, c@]
        }),
{
    let mut v: Vec<String> = Vec::new();
    v.push(a.to_owned());
    if n >= 2 {
        v.push(b.to_owned());
    }
    if n >= 3 {
        v.push(c.to_owned());
    }
    assert(strs_view(v@) =~= (if n == 1 {
        seq![a@]
    } else if n == 2 {
        seq![a@, b@]
    } else {
        seq![a@, b@, c@]
    }));
    v
}

impl Rules {
    /// The default rules: cargo/git/rg/ls prefixes on the allow list and
    /// `rm -rf`, `git push --force`, `git reset --hard`, `dd`, `mkfs` on
    /// the deny list.
    pub fn default_rules() -> (r: Rules)
        ensures
            prefixes_view(r.allow@) == default_allow(),
            prefixes_view(r.deny@) == default_deny(),
    {
        let mut allow: Vec<Vec<String>> = Vec::new();
        allow.push(words("cargo", "test", "", 2));
        allow.push(words("cargo", "check", "", 2));
        allow.push(words("cargo", "build", "", 2));
        allow.push(words("git", "diff", "", 2));
        allow.push(words("git", "status", "", 2));
        allow.push(words("git", "log", "", 2));
        allow.push(words("rg", "", "", 1));
        allow.push(words("ls", "", "", 1));
        let mut deny: Vec<Vec<String>> = Vec::new();
        deny.push(words("rm", "-rf", "", 2));
        deny.push(words("git", "push", "--force", 3));
        deny.push(words("git", "reset", "--hard", 3));
        deny.push(words("dd", "", "", 1));
        deny.push(words("mkfs", "", "", 1));
        assert(prefixes_view(allow@) =~= default_allow());
        assert(prefixes_view(deny@) =~= default_deny());
        Rules { allow, deny }
    }
}

impl Default for Rules {
    fn default() -> (r: Rules)
        ensures
            prefixes_view(r.allow@) == default_allow(),
            prefixes_view(r.deny@) == default_deny(),
    {
        Rules::default_rules()
    }
}

// ---------------------------------------------------------------------
// Enforcement
// ---------------------------------------------------------------------

/// What enforcement decides before any model is asked.
#[derive(Debug)]
pub enum EnforceStep {
    /// The verdict is known.
    Decided(Verdict),
    /// Ask Jev (or its cache) about this key.
    Judge(GateCacheKey),
}

/// `program` followed by `args`.
pub open spec fn full_argv(program: Seq<char>, args: Seq<Seq<char>>) -> Seq<Seq<char>> {
    seq![program] + args
}

/// Enforcement without the cache: `Allow` in `Off` mode; else what
/// the rules say, when they say anything; else a Jev question keyed by the
/// root and the full argv.
fn rule_step(mode: GateMode, rules: &Rules, program: &str, args: &[String], root: &str) -> (r:
    EnforceStep)
    ensures
        mode == GateMode::Off ==> (r matches EnforceStep::Decided(v) && v.sv() == SVerdict::Allow),
        mode == GateMode::Jev ==> match spec_rules_verdict(
            full_argv(program@, strs_view(args@)),
            prefixes_view(rules.allow@),
            prefixes_view(rules.deny@),
            root@,
        ) {
            Some(sv) => r matches EnforceStep::Decided(v) && v.sv() == sv,
            None => r matches EnforceStep::Judge(k) && k.root@ == root@ && strs_view(k.argv@)
                == full_argv(program@, strs_view(args@)),
        },
{
    if mode == GateMode::Off {
        return EnforceStep::Decided(Verdict::Allow);
    }
    let mut argv: Vec<String> = Vec::new();
    argv.push(program.to_owned());
    let mut i: usize = 0;
    while i < args.len()
        invariant
            i <= args.len(),
            strs_view(argv@) == full_argv(program@, strs_view(args@.take(i as int))),
        decreases args.len() - i,
    {
        let ghost before = argv@;
        argv.push(args[i].clone());
        assert(strs_view(argv@) =~= strs_view(before).push(args@[i as int]@));
        assert(strs_view(args@.take(i + 1)) =~= strs_view(args@.take(i as int)).push(
            args@[i as int]@,
        ));
        i = i + 1;
    }
    assert(args@.take(args.len() as int) == args@);
    match rules_verdict(argv.as_slice(), rules, root) {
        Some(v) => EnforceStep::Decided(v),
        None => EnforceStep::Judge(GateCacheKey { root: root.to_owned(), argv }),
    }
}


// ---------------------------------------------------------------------
// Verdict cache
// ---------------------------------------------------------------------

/// The verdict recorded last for `(root, argv)` among `entries`.
pub open spec fn cached_in(
    entries: Seq<(GateCacheKey, Verdict)>,
    root: Seq<char>,
    argv: Seq<Seq<char>>,
) -> Option<SVerdict>
    decreases entries.len(),
{
    if entries.len() == 0 {
        None
    } else {
        let (k, v) = entries.last();
        if k.root@ == root && strs_view(k.argv@) == argv {
            Some(v.sv())
        } else {
            cached_in(entries.drop_last(), root, argv)
        }
    }
}

/// Jev verdicts already obtained, by workspace root and full argv.
#[derive(Debug)]
pub struct VerdictCache {
    entries: Vec<(GateCacheKey, Verdict)>,
}

fn copy_verdict(v: &Verdict) -> (r: Verdict)
    ensures
        r.sv() == v.sv(),
{
    match v {
        Verdict::Allow => Verdict::Allow,
        Verdict::Ask(m) => Verdict::Ask(m.clone()),
        Verdict::Block(m) => Verdict::Block(m.clone()),
    }
}

fn same_argv(x: &[String], y: &[String]) -> (r: bool)
    ensures
        r == (strs_view(x@) == strs_view(y@)),
{
    if x.len() != y.len() {
        assert(strs_view(x@).len() != strs_view(y@).len());
        return false;
    }
    let mut i: usize = 0;
    while i < x.len()
        invariant
            i <= x.len() == y.len(),
            forall|j: int| 0 <= j < i ==> x@[j]@ == y@[j]@,
        decreases x.len() - i,
    {
        if !str_eq(x[i].as_str(), y[i].as_str()) {
            assert(strs_view(x@)[i as int] != strs_view(y@)[i as int]);
            return false;
        }
        i = i + 1;
    }
    assert(strs_view(x@) =~= strs_view(y@));
    true
}

impl VerdictCache {
    /// The verdict recorded for `(root, argv)`, if any.
    pub closed spec fn cached(&self, root: Seq<char>, argv: Seq<Seq<char>>) -> Option<SVerdict> {
        cached_in(self.entries@, root, argv)
    }

    /// An empty cache.
    pub fn new() -> (r: VerdictCache)
        ensures
            forall|root: Seq<char>, argv: Seq<Seq<char>>| #[trigger] r.cached(root, argv) is None,
    {
        VerdictCache { entries: Vec::new() }
    }

    /// The verdict recorded for `key`.
    pub fn get(&self, key: &GateCacheKey) -> (r: Option<Verdict>)
        ensures
            match r {
                Some(v) => self.cached(key.root@, strs_view(key.argv@)) == Some(v.sv()),
                None => self.cached(key.root@, strs_view(key.argv@)) is None,
            },
    {
        let ghost root = key.root@;
        let ghost argv = strs_view(key.argv@);
        let mut n: usize = self.entries.len();
        assert(self.entries@.take(n as int) == self.entries@);
        while n > 0
            invariant
                n <= self.entries@.len(),
                root == key.root@,
                argv == strs_view(key.argv@),
                cached_in(self.entries@, root, argv) == cached_in(
                    self.entries@.take(n as int),
                    root,
                    argv,
                ),
            decreases n,
        {
            let e = &self.entries[n - 1];
            assert(self.entries@.take(n as int).last() == self.entries@[n - 1]);
            assert(self.entries@.take(n as int).drop_last() == self.entries@.take(n - 1));
            if str_eq(e.0.root.as_str(), key.root.as_str()) && same_argv(
                e.0.argv.as_slice(),
                key.argv.as_slice(),
            ) {
                return Some(copy_verdict(&e.1));
            }
            n = n - 1;
        }
        None
    }

    /// Records `verdict` for `key`; every other key keeps its verdict.
    pub fn insert(&mut self, key: GateCacheKey, verdict: Verdict)
        ensures
            final(self).cached(key.root@, strs_view(key.argv@)) == Some(verdict.sv()),
            forall|root: Seq<char>, argv: Seq<Seq<char>>|
                !(root == key.root@ && argv == strs_view(key.argv@)) ==> #[trigger] final(self).cached(root, argv) == old(self).cached(root, argv),
    {
        let ghost k = key;
        let ghost v = verdict;
        let ghost before = self.entries@;
        self.entries.push((key, verdict));
        assert(self.entries@.drop_last() == before);
        assert(self.entries@.last() == (k, v));
    }
}

/// Gate enforcement for one command, before any model is asked: `Allow`
/// in `Off` mode; else what the rules say; else the verdict already
/// recorded in `cache` for the same root and full argv (another root is a
/// miss); else a Jev question for that key, whose answer the caller
/// records with [`VerdictCache::insert`]. The cache is only read.
pub fn enforce(
    mode: GateMode,
    rules: &Rules,
    cache: &VerdictCache,
    program: &str,
    args: &[String],
    root: &str,
) -> (r: EnforceStep)
    ensures
        mode == GateMode::Off ==> (r matches EnforceStep::Decided(v) && v.sv() == SVerdict::Allow),
        mode == GateMode::Jev ==> match spec_rules_verdict(
            full_argv(program@, strs_view(args@)),
            prefixes_view(rules.allow@),
            prefixes_view(rules.deny@),
            root@,
        ) {
            Some(sv) => r matches EnforceStep::Decided(v) && v.sv() == sv,
            None => match cache.cached(root@, full_argv(program@, strs_view(args@))) {
                Some(cv) => r matches EnforceStep::Decided(v) && v.sv() == cv,
                None => r matches EnforceStep::Judge(k) && k.root@ == root@ && strs_view(k.argv@)
                    == full_argv(program@, strs_view(args@)),
            },
        },
{
    match rule_step(mode, rules, program, args, root) {
        EnforceStep::Decided(v) => EnforceStep::Decided(v),
        EnforceStep::Judge(key) => match cache.get(&key) {
            Some(v) => EnforceStep::Decided(v),
            None => EnforceStep::Judge(key),
        },
    }
}


// ---------------------------------------------------------------------
// Laws
// ---------------------------------------------------------------------

/// A built-in refusal stands whatever the custom rules say: no allow
/// list, however broad, lets through `rm -rf`, a forced `git push`,
/// `git reset --hard`, a forced `git clean`, `dd` or `mkfs`.
pub proof fn law_builtin_deny_wins(
    argv: Seq<Seq<char>>,
    allow: Seq<Seq<Seq<char>>>,
    deny: Seq<Seq<Seq<char>>>,
    root: Seq<char>,
)
    requires
        builtin_deny(normalized(argv)) is Some,
    ensures
        spec_rules_verdict(argv, allow, deny, root) == builtin_deny(normalized(argv)),
        spec_rules_verdict(argv, allow, deny, root)->0 is Block,
{
}

/// Custom allow rules never bypass the schema: for `cargo`, `git`, `rg`
/// and `ls`, a command is allowed only when the schema allows it.
pub proof fn law_allow_rules_never_bypass_schema(
    argv: Seq<Seq<char>>,
    allow: Seq<Seq<Seq<char>>>,
    deny: Seq<Seq<Seq<char>>>,
    root: Seq<char>,
)
    requires
        argv.len() > 0,
        has_allow_schema(basename(argv[0])),
        spec_rules_verdict(argv, allow, deny, root) == Some(SVerdict::Allow),
    ensures
        schema_allows(argv, root),
{
}

/// Any allowed command is either in the schema or a lone program named by
/// a single-word allow rule.
pub proof fn law_allow_has_a_reason(
    argv: Seq<Seq<char>>,
    allow: Seq<Seq<Seq<char>>>,
    deny: Seq<Seq<Seq<char>>>,
    root: Seq<char>,
)
    requires
        spec_rules_verdict(argv, allow, deny, root) == Some(SVerdict::Allow),
    ensures
        hard_deny(argv, deny) is None,
        schema_allows(argv, root) || (argv.len() == 1 && exists|k: int|
            0 <= k < allow.len() && #[trigger] allow[k].len() == 1 && prefix_match(argv, allow[k])),
{
    match hard_deny(argv, deny) {
        Some(v) => {
            assert(v !is Allow) by {
                match builtin_deny(normalized(argv)) {
                    Some(_) => {},
                    None => {},
                }
            }
        },
        None => {},
    }
}

/// With the default rules, every allowed command is one that the schema
/// allows (the single-word defaults `rg` and `ls` have schemas).
pub proof fn law_default_allow_is_schema(argv: Seq<Seq<char>>, root: Seq<char>)
    requires
        spec_rules_verdict(argv, default_allow(), default_deny(), root) == Some(SVerdict::Allow),
    ensures
        schema_allows(argv, root),
{
    law_allow_has_a_reason(argv, default_allow(), default_deny(), root);
    if !schema_allows(argv, root) {
        let k = choose|k: int|
            0 <= k < default_allow().len() && #[trigger] default_allow()[k].len() == 1
                && prefix_match(argv, default_allow()[k]);
        reveal_strlit("rg");
        reveal_strlit("ls");
        reveal_strlit("cargo");
        reveal_strlit("git");
        reveal_with_fuel(basename, 3);
        assert(k == 6 || k == 7);
        assert(basename("rg"@) == "rg"@);
        assert(basename("ls"@) == "ls"@);
        assert(has_allow_schema(basename(argv[0])));
    }
}

/// `a` is a short-flag cluster (`-` then no second `-`) that holds `c`.
pub open spec fn cluster_holds(a: Seq<char>, c: char) -> bool {
    a.len() >= 2 && a[0] == '-' && a[1] != '-' && a.skip(1).contains(c)
}

proof fn lemma_cluster_holds(a: Seq<char>, c: char)
    requires
        cluster_holds(a, c),
    ensures
        short_cluster(a),
        a.contains(c),
        starts_with(a, "-"@),
        !starts_with(a, "--"@),
        a.skip(1).contains(c),
{
    reveal_strlit("-");
    reveal_strlit("--");
    assert(a.take(1) =~= "-"@);
    assert(a.take(2)[1] == a[1]);
    assert(!(a == "-"@)) by {
        if a == "-"@ {
            assert(a.len() == 1);
        }
    }
    let j = choose|j: int| 0 <= j < a.skip(1).len() && a.skip(1)[j] == c;
    assert(a[j + 1] == c);
}

/// `git clean` with a forcing argument is refused outright, whatever the
/// custom rules say: after git's global options, a `clean` word followed
/// later by `--force`, `-f`, or a short-flag cluster holding `f` (as in
/// `git clean -fd`) gives a `Block` verdict.
pub proof fn law_git_clean_force_is_refused(
    argv: Seq<Seq<char>>,
    allow: Seq<Seq<Seq<char>>>,
    deny: Seq<Seq<Seq<char>>>,
    root: Seq<char>,
    i: int,
    k: int,
)
    requires
        normalized(argv).len() > 0,
        basename(normalized(argv)[0]) == "git"@,
        1 <= i < k < normalized(argv).len(),
        normalized(argv)[i] == "clean"@,
        normalized(argv)[k] == "--force"@ || normalized(argv)[k] == "-f"@ || cluster_holds(
            normalized(argv)[k],
            'f',
        ),
    ensures
        spec_rules_verdict(argv, allow, deny, root) is Some,
        spec_rules_verdict(argv, allow, deny, root)->0 is Block,
{
    let n = normalized(argv);
    let args = n.skip(1);
    let a = n[k];
    assert(args[i - 1] == n[i]);
    assert(args[k - 1] == a);
    if cluster_holds(a, 'f') {
        lemma_cluster_holds(a, 'f');
    }
    assert(clean_force_arg(args[k - 1]));
    assert(git_clean_force(args));
}

/// A recursive, forced `rm` is refused outright, whatever the custom
/// rules say: `rm` (by its last path segment) with a recursive argument
/// (`--recursive`, or a cluster holding `r` or `R`) and a forcing one
/// (`--force`, or a cluster holding `f`), as in `rm -rf` or `rm -r -f`.
pub proof fn law_rm_recursive_force_is_refused(
    argv: Seq<Seq<char>>,
    allow: Seq<Seq<Seq<char>>>,
    deny: Seq<Seq<Seq<char>>>,
    root: Seq<char>,
    i: int,
    k: int,
)
    requires
        argv.len() > 0,
        basename(argv[0]) == "rm"@,
        1 <= i < argv.len(),
        1 <= k < argv.len(),
        argv[i] == "--recursive"@ || cluster_holds(argv[i], 'r') || cluster_holds(argv[i], 'R'),
        argv[k] == "--force"@ || cluster_holds(argv[k], 'f'),
    ensures
        spec_rules_verdict(argv, allow, deny, root) is Some,
        spec_rules_verdict(argv, allow, deny, root)->0 is Block,
{
    reveal_strlit("git");
    reveal_strlit("rm");
    assert(basename(argv[0]) != "git"@) by {
        assert("rm"@.len() != "git"@.len());
    }
    assert(normalized(argv) == argv);
    let args = argv.skip(1);
    assert(args[i - 1] == argv[i]);
    assert(args[k - 1] == argv[k]);
    if cluster_holds(argv[i], 'r') {
        lemma_cluster_holds(argv[i], 'r');
    }
    if cluster_holds(argv[i], 'R') {
        lemma_cluster_holds(argv[i], 'R');
    }
    if cluster_holds(argv[k], 'f') {
        lemma_cluster_holds(argv[k], 'f');
    }
    assert(rm_recursive_force(args));
}

/// A forced `git push` is refused outright, whatever the custom rules
/// say: after git's global options, a `push` word followed later by
/// `--force`, `--force-with-lease...`, a `+refspec`, or a cluster holding
/// `f`.
pub proof fn law_git_push_force_is_refused(
    argv: Seq<Seq<char>>,
    allow: Seq<Seq<Seq<char>>>,
    deny: Seq<Seq<Seq<char>>>,
    root: Seq<char>,
    i: int,
    k: int,
)
    requires
        normalized(argv).len() > 0,
        basename(normalized(argv)[0]) == "git"@,
        1 <= i < k < normalized(argv).len(),
        normalized(argv)[i] == "push"@,
        normalized(argv)[k] == "--force"@ || normalized(argv)[k] == "--force-with-lease"@ || (
        normalized(argv)[k].len() > 0 && normalized(argv)[k][0] == '+') || cluster_holds(
            normalized(argv)[k],
            'f',
        ),
    ensures
        spec_rules_verdict(argv, allow, deny, root) is Some,
        spec_rules_verdict(argv, allow, deny, root)->0 is Block,
{
    reveal_strlit("+");
    reveal_strlit("--force-with-lease");
    let n = normalized(argv);
    let args = n.skip(1);
    let a = n[k];
    assert(args[i - 1] == n[i]);
    assert(args[k - 1] == a);
    if cluster_holds(a, 'f') {
        lemma_cluster_holds(a, 'f');
    }
    if a.len() > 0 && a[0] == '+' {
        assert(a.take(1) =~= "+"@);
    }
    if a == "--force-with-lease"@ {
        assert(a.take(a.len() as int) =~= a);
    }
    assert(push_force_arg(args[k - 1]));
    assert(git_push_force(args));
}

/// `git reset --hard` is refused outright, whatever the custom rules say.
pub proof fn law_git_reset_hard_is_refused(
    argv: Seq<Seq<char>>,
    allow: Seq<Seq<Seq<char>>>,
    deny: Seq<Seq<Seq<char>>>,
    root: Seq<char>,
    i: int,
    k: int,
)
    requires
        normalized(argv).len() > 0,
        basename(normalized(argv)[0]) == "git"@,
        1 <= i <= k < normalized(argv).len(),
        normalized(argv)[i] == "reset"@,
        normalized(argv)[k] == "--hard"@,
    ensures
        spec_rules_verdict(argv, allow, deny, root) is Some,
        spec_rules_verdict(argv, allow, deny, root)->0 is Block,
{
    let n = normalized(argv);
    let args = n.skip(1);
    assert(args[i - 1] == n[i]);
    assert(args[k - 1] == n[k]);
    assert(arg_is(args[k - 1], "--hard"@));
    assert(git_reset_hard(args));
}

/// `dd` and `mkfs` are refused outright, whatever their arguments and the
/// custom rules.
pub proof fn law_dd_and_mkfs_are_refused(
    argv: Seq<Seq<char>>,
    allow: Seq<Seq<Seq<char>>>,
    deny: Seq<Seq<Seq<char>>>,
    root: Seq<char>,
)
    requires
        argv.len() > 0,
        basename(argv[0]) == "dd"@ || basename(argv[0]) == "mkfs"@,
    ensures
        spec_rules_verdict(argv, allow, deny, root) is Some,
        spec_rules_verdict(argv, allow, deny, root)->0 is Block,
{
    reveal_strlit("git");
    reveal_strlit("dd");
    reveal_strlit("mkfs");
    reveal_strlit("rm");
    assert(basename(argv[0]) != "git"@) by {
        assert("git"@.len() == 3);
    }
    assert(basename(argv[0]) != "rm"@) by {
        assert("rm"@[0] != "dd"@[0]);
        assert("rm"@.len() != "mkfs"@.len());
    }
    assert(normalized(argv) == argv);
}

} // verus!
