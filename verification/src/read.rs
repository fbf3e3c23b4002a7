//! Capped file reads: the anti-whole-file-read gate.
//!
//! Rules (fail closed):
//! - `line` given (1-based): a `radius`-line window around it (default
//!   100 each way, at most [`MAX_RADIUS`]), clamped to the file.
//! - No `line`: an explicit `range` is returned as asked when it spans at
//!   most `limit_lines`; without either, files of at most `limit_lines`
//!   lines are read whole and larger ones are refused with their count.
//! - Binary files (a NUL byte) and non-UTF-8 files are errors, not dumps.
//! - Output lines longer than [`MAX_LINE_CHARS`] bytes are cut at a
//!   character boundary and marked; the whole output stops at the last
//!   whole line that fits [`READ_CHAR_BUDGET`] bytes.

use vstd::prelude::*;

use crate::text::{
    char_width, char_width_of, chars_of, dec, dec_chars, fit_prefix, lemma_utf8_len_take,
    lines, pad_left, push_chars, push_padded, push_str_chars, split_lines, string_from,
    sub_chars, utf8_len, utf8_len_upto, utf8_text,
};

verus! {

/// Default window radius around `line` (~200-line windows).
pub const DEFAULT_RADIUS: u64 = 100;

/// Hard cap on window radius (values above are clamped).
pub const MAX_RADIUS: u64 = 200;

/// Files longer than this need an explicit range (or `line`) to read.
pub const WHOLE_FILE_LIMIT_LINES: u64 = 400;

/// Max formatted read output size (bytes); stops at the last whole line.
pub const READ_CHAR_BUDGET: usize = 48_000;

/// Lines longer than this (bytes) are truncated in read output.
pub const MAX_LINE_CHARS: usize = 8192;

/// Marker appended to a truncated output line.
pub const TRUNCATED_LINE_MARKER: &'static str = " ... (line truncated)";

/// Read errors: all caller-visible, none dump file contents.
#[derive(Debug, Clone, PartialEq, Eq)]
pub enum Error {
    /// Path escapes the workspace root.
    Escape(String),
    /// Filesystem access failed, or the request is out of range.
    Io(String),
    /// Whole-file read requires an explicit range (file too large).
    RangeRequired {
        /// Total lines in the file.
        lines: u64,
    },
    /// Explicit range spans more lines than allowed.
    RangeTooLarge {
        /// Requested span.
        span: u64,
        /// Maximum allowed span.
        max: u64,
    },
    /// Binary content refused.
    Binary(String),
    /// Strict UTF-8 required.
    NotUtf8(String),
    /// Generated/data file (overlong lines) refused on edit.
    Generated(String),
}

/// A read error as a specification value.
pub enum SError {
    /// Path escapes the workspace root.
    Escape(Seq<char>),
    /// Filesystem access failed, or the request is out of range.
    Io(Seq<char>),
    /// Whole-file read requires an explicit range.
    RangeRequired(nat),
    /// Explicit range spans more lines than allowed (span, max).
    RangeTooLarge(nat, nat),
    /// Binary content refused.
    Binary(Seq<char>),
    /// Strict UTF-8 required.
    NotUtf8(Seq<char>),
    /// Generated/data file refused.
    Generated(Seq<char>),
}

impl Error {
    /// The error as a specification value.
    pub open spec fn sv(&self) -> SError {
        match self {
            Error::Escape(p) => SError::Escape(p@),
            Error::Io(m) => SError::Io(m@),
            Error::RangeRequired { lines } => SError::RangeRequired(*lines as nat),
            Error::RangeTooLarge { span, max } => SError::RangeTooLarge(
                *span as nat,
                *max as nat,
            ),
            Error::Binary(p) => SError::Binary(p@),
            Error::NotUtf8(p) => SError::NotUtf8(p@),
            Error::Generated(p) => SError::Generated(p@),
        }
    }

    /// Human-readable message.
    pub fn message(&self) -> (r: String)
        ensures
            r@ == spec_message(self.sv()),
    {
        let mut out: Vec<char> = Vec::new();
        match self {
            Error::Escape(p) => {
                push_str_chars(&mut out, "path escapes workspace root: ");
                push_str_chars(&mut out, p.as_str());
            },
            Error::Io(m) => {
                push_str_chars(&mut out, "io: ");
                push_str_chars(&mut out, m.as_str());
            },
            Error::RangeRequired { lines } => {
                push_str_chars(&mut out, "refusing whole-file read of ");
                let d = dec_chars(*lines);
                push_chars(&mut out, d.as_slice());
                push_str_chars(&mut out, " lines; pass --start/--end or --line");
            },
            Error::RangeTooLarge { span, max } => {
                push_str_chars(&mut out, "refusing read range of ");
                let d = dec_chars(*span);
                push_chars(&mut out, d.as_slice());
                push_str_chars(&mut out, " lines; max is ");
                let m = dec_chars(*max);
                push_chars(&mut out, m.as_slice());
                push_str_chars(&mut out, " lines per request");
            },
            Error::Binary(p) => {
                push_str_chars(&mut out, "refusing binary file: ");
                push_str_chars(&mut out, p.as_str());
            },
            Error::NotUtf8(p) => {
                push_str_chars(&mut out, "refusing non-UTF-8 file: ");
                push_str_chars(&mut out, p.as_str());
            },
            Error::Generated(p) => {
                push_str_chars(&mut out, "refusing generated/data file: ");
                push_str_chars(&mut out, p.as_str());
            },
        }
        string_from(out.as_slice())
    }
}

/// The message of a read error.
pub open spec fn spec_message(e: SError) -> Seq<char> {
    match e {
        SError::Escape(p) => "path escapes workspace root: "@ + p,
        SError::Io(m) => "io: "@ + m,
        SError::RangeRequired(n) => "refusing whole-file read of "@ + dec(n)
            + " lines; pass --start/--end or --line"@,
        SError::RangeTooLarge(span, max) => "refusing read range of "@ + dec(span)
            + " lines; max is "@ + dec(max) + " lines per request"@,
        SError::Binary(p) => "refusing binary file: "@ + p,
        SError::NotUtf8(p) => "refusing non-UTF-8 file: "@ + p,
        SError::Generated(p) => "refusing generated/data file: "@ + p,
    }
}

/// One bounded read.
#[derive(Debug, Clone, PartialEq, Eq)]
pub struct ReadHit {
    /// File path.
    pub path: String,
    /// 1-based first line returned.
    pub start: u64,
    /// 1-based last line returned (inclusive).
    pub end: u64,
    /// Total lines in the file.
    pub total: u64,
    /// Returned line texts (no trailing newline).
    pub text: Vec<String>,
}

/// Loaded file text for the read and edit gates.
#[derive(Debug, Clone, PartialEq, Eq)]
pub struct LoadedFile {
    /// File path.
    pub path: String,
    /// Whole file text.
    pub text: String,
    /// Number of lines in `text`.
    pub total_lines: u64,
}

/// Character view of a list of strings.
pub open spec fn strings_view(v: Seq<String>) -> Seq<Seq<char>> {
    v.map_values(|s: String| s@)
}

// ---------------------------------------------------------------------
// Loading
// ---------------------------------------------------------------------

/// Some line of `text` is longer than [`MAX_LINE_CHARS`] bytes.
pub open spec fn has_overlong_line(text: Seq<char>) -> bool {
    exists|k: int| 0 <= k < lines(text).len() && utf8_len(#[trigger] lines(text)[k]) > 8192
}

/// What loading `bytes` from `path` gives.
pub open spec fn spec_load(path: Seq<char>, bytes: Seq<u8>, refuse_generated: bool) -> Result<
    (Seq<char>, nat),
    SError,
> {
    if bytes.contains(0u8) {
        Err(SError::Binary(path))
    } else if !vstd::utf8::valid_utf8(bytes) {
        Err(SError::NotUtf8(path))
    } else {
        let text = vstd::utf8::decode_utf8(bytes);
        if refuse_generated && has_overlong_line(text) {
            Err(SError::Generated(path))
        } else {
            Ok((text, lines(text).len()))
        }
    }
}

/// Checks loaded bytes: NUL bytes mean binary, the rest must be UTF-8,
/// and (for edits) no line may exceed [`MAX_LINE_CHARS`] bytes.
pub fn load_bytes(path: &str, bytes: &[u8], refuse_generated: bool) -> (r: Result<
    LoadedFile,
    Error,
>)
    ensures
        match r {
            Ok(f) => spec_load(path@, bytes@, refuse_generated) == Ok::<(Seq<char>, nat), SError>(
                (f.text@, f.total_lines as nat),
            ) && f.path@ == path@,
            Err(e) => spec_load(path@, bytes@, refuse_generated) == Err::<(Seq<char>, nat), SError>(
                e.sv(),
            ),
        },
{
    let mut k: usize = 0;
    while k < bytes.len()
        invariant
            k <= bytes.len(),
            forall|j: int| 0 <= j < k ==> bytes@[j] != 0u8,
        decreases bytes.len() - k,
    {
        if bytes[k] == 0u8 {
            assert(bytes@.contains(0u8)) by {
                assert(bytes@[k as int] == 0u8);
            }
            return Err(Error::Binary(path.to_owned()));
        }
        k = k + 1;
    }
    assert(!bytes@.contains(0u8));
    let text = match utf8_text(vstd::slice::slice_to_vec(bytes)) {
        Some(t) => t,
        None => {
            return Err(Error::NotUtf8(path.to_owned()));
        },
    };
    let cs = chars_of(text.as_str());
    let ls = split_lines(cs.as_slice());
    let ghost lv = ls@.map_values(|v: Vec<char>| v@);
    if refuse_generated {
        let mut i: usize = 0;
        while i < ls.len()
            invariant
                i <= ls.len(),
                lv == ls@.map_values(|v: Vec<char>| v@),
                lv == lines(vstd::utf8::decode_utf8(bytes@)),
                refuse_generated,
                vstd::utf8::valid_utf8(bytes@),
                !bytes@.contains(0u8),
                forall|j: int| 0 <= j < i ==> utf8_len(#[trigger] lv[j]) <= 8192,
            decreases ls.len() - i,
        {
            assert(ls@[i as int]@ == lv[i as int]);
            if utf8_len_upto(ls[i].as_slice(), MAX_LINE_CHARS).is_none() {
                assert(utf8_len(lv[i as int]) > 8192);
                assert(has_overlong_line(vstd::utf8::decode_utf8(bytes@)));
                return Err(Error::Generated(path.to_owned()));
            }
            i = i + 1;
        }
        assert(!has_overlong_line(vstd::utf8::decode_utf8(bytes@)));
    }
    let total = ls.len() as u64;
    Ok(LoadedFile { path: path.to_owned(), text, total_lines: total })
}

/// Number of lines (`str::lines().count()`).
pub fn count_lines(text: &str) -> (r: u64)
    ensures
        r == lines(text@).len(),
{
    let cs = chars_of(text);
    let ls = split_lines(cs.as_slice());
    ls.len() as u64
}

// ---------------------------------------------------------------------
// Line display
// ---------------------------------------------------------------------

/// How a line is shown: cut to the longest character prefix that fits
/// [`MAX_LINE_CHARS`] bytes, with the marker, when it is longer.
pub open spec fn display_line(line: Seq<char>) -> Seq<char> {
    if utf8_len(line) <= 8192 {
        line
    } else {
        line.take(fit_prefix(line, 8192) as int) + TRUNCATED_LINE_MARKER@
    }
}

proof fn lemma_fit_prefix_step(s: Seq<char>, k: int, max: nat)
    requires
        0 <= k < s.len(),
        char_width(s[k]) <= max,
    ensures
        fit_prefix(s.skip(k), max) == 1 + fit_prefix(s.skip(k + 1), (max - char_width(s[k])) as nat),
{
    assert(s.skip(k).drop_first() == s.skip(k + 1));
}

proof fn lemma_fit_prefix_le(s: Seq<char>, max: nat)
    ensures
        fit_prefix(s, max) <= s.len(),
    decreases s.len(),
{
    if s.len() > 0 && char_width(s[0]) <= max {
        lemma_fit_prefix_le(s.drop_first(), (max - char_width(s[0])) as nat);
    }
}

/// The displayed form of one line; see [`display_line`].
pub fn truncate_line_display(line: &[char]) -> (r: Vec<char>)
    ensures
        r@ == display_line(line@),
{
    match utf8_len_upto(line, MAX_LINE_CHARS) {
        Some(_) => {
            let r = sub_chars(line, 0, line.len());
            assert(r@ == line@);
            r
        },
        None => {
            let mut total: usize = 0;
            let mut k: usize = 0;
            assert(line@.skip(0) == line@);
            assert(line@.take(0) == Seq::<char>::empty());
            assert(utf8_len(Seq::<char>::empty()) == 0) by {
                assert(vstd::utf8::encode_utf8(Seq::<char>::empty()) == Seq::<u8>::empty());
            }
            while k < line.len() && total + char_width_of(line[k]) <= MAX_LINE_CHARS
                invariant
                    k <= line.len(),
                    total <= 8192,
                    total == utf8_len(line@.take(k as int)),
                    fit_prefix(line@, 8192) == k + fit_prefix(
                        line@.skip(k as int),
                        (8192 - total) as nat,
                    ),
                decreases line.len() - k,
            {
                proof {
                    lemma_utf8_len_take(line@, k as int);
                    lemma_fit_prefix_step(line@, k as int, (8192 - total) as nat);
                }
                total = total + char_width_of(line[k]);
                k = k + 1;
            }
            proof {
                if k < line.len() {
                    assert(line@.skip(k as int)[0] == line@[k as int]);
                } else {
                    assert(line@.skip(k as int).len() == 0);
                }
            }
            let mut r = sub_chars(line, 0, k);
            push_str_chars(&mut r, TRUNCATED_LINE_MARKER);
            r
        },
    }
}

/// Lines `start..=end` (1-based) of `ls`, as displayed.
pub open spec fn slice_view(ls: Seq<Seq<char>>, start: nat, end: nat) -> Seq<Seq<char>> {
    let lo = if start >= 1 {
        (start - 1) as int
    } else {
        0
    };
    let hi = if end <= ls.len() {
        end as int
    } else {
        ls.len() as int
    };
    if lo >= hi {
        Seq::empty()
    } else {
        ls.subrange(lo, hi).map_values(|l: Seq<char>| display_line(l))
    }
}

fn slice_lines(ls: &[Vec<char>], start: u64, end: u64) -> (r: Vec<String>)
    ensures
        strings_view(r@) == slice_view(
            ls@.map_values(|v: Vec<char>| v@),
            start as nat,
            end as nat,
        ),
{
    let ghost lv = ls@.map_values(|v: Vec<char>| v@);
    let lo: usize = if start >= 1 {
        if start - 1 < ls.len() as u64 {
            (start - 1) as usize
        } else {
            ls.len()
        }
    } else {
        0
    };
    let hi: usize = if end <= ls.len() as u64 {
        end as usize
    } else {
        ls.len()
    };
    let mut out: Vec<String> = Vec::new();
    if lo >= hi {
        assert(strings_view(out@) =~= slice_view(lv, start as nat, end as nat));
        return out;
    }
    let mut i = lo;
    while i < hi
        invariant
            lo <= i <= hi <= ls.len(),
            lv == ls@.map_values(|v: Vec<char>| v@),
            strings_view(out@) == lv.subrange(lo as int, i as int).map_values(
                |l: Seq<char>| display_line(l),
            ),
        decreases hi - i,
    {
        assert(ls@[i as int]@ == lv[i as int]);
        let d = truncate_line_display(ls[i].as_slice());
        let ghost before = out@;
        out.push(string_from(d.as_slice()));
        assert(strings_view(out@) =~= strings_view(before).push(display_line(lv[i as int])));
        assert(lv.subrange(lo as int, i + 1).map_values(|l: Seq<char>| display_line(l))
            =~= lv.subrange(lo as int, i as int).map_values(|l: Seq<char>| display_line(l)).push(
            display_line(lv[i as int]),
        ));
        i = i + 1;
    }
    out
}

// ---------------------------------------------------------------------
// Numbering and budget
// ---------------------------------------------------------------------

/// One numbered row: `n` right-aligned in `width`, then `|`, then the line.
pub open spec fn numbered_row(n: nat, width: nat, line: Seq<char>) -> Seq<char> {
    pad_left(dec(n), width) + "|"@ + line
}

/// [`format_numbered_lines`]: rows numbered from `start`, aligned to the
/// width of the last number.
pub open spec fn numbered(start: nat, ls: Seq<Seq<char>>) -> Seq<Seq<char>> {
    if ls.len() == 0 {
        Seq::empty()
    } else {
        let width = dec((start + ls.len() - 1) as nat).len();
        Seq::new(ls.len(), |i: int| numbered_row((start + i) as nat, width, ls[i]))
    }
}

/// Prefix each line with a 1-based line number, right-aligned, then `|`.
pub fn format_numbered_lines(start: u64, lines_in: &[String]) -> (r: Vec<String>)
    requires
        lines_in.len() > 0 ==> start + lines_in.len() - 1 <= u64::MAX,
    ensures
        strings_view(r@) == numbered(start as nat, strings_view(lines_in@)),
{
    let ghost lv = strings_view(lines_in@);
    let mut out: Vec<String> = Vec::new();
    if lines_in.len() == 0 {
        assert(strings_view(out@) =~= numbered(start as nat, lv));
        return out;
    }
    let last: u64 = start + ((lines_in.len() as u64) - 1);
    let width = dec_chars(last).len();
    let mut i: usize = 0;
    while i < lines_in.len()
        invariant
            i <= lines_in.len(),
            lines_in.len() > 0,
            last == start + lines_in.len() - 1,
            width == dec(last as nat).len(),
            lv == strings_view(lines_in@),
            strings_view(out@) == Seq::new(
                i as nat,
                |j: int| numbered_row((start + j) as nat, width as nat, lv[j]),
            ),
        decreases lines_in.len() - i,
    {
        let n: u64 = start + i as u64;
        let mut row: Vec<char> = Vec::new();
        let d = dec_chars(n);
        push_padded(&mut row, d.as_slice(), width);
        push_str_chars(&mut row, "|");
        push_str_chars(&mut row, lines_in[i].as_str());
        assert(row@ == numbered_row((start + i) as nat, width as nat, lv[i as int]));
        let ghost before = out@;
        let row_s = string_from(row.as_slice());
        out.push(row_s);
        assert(strings_view(out@) =~= strings_view(before).push(row@));
        assert(strings_view(out@) =~= Seq::new(
            (i + 1) as nat,
            |j: int| numbered_row((start + j) as nat, width as nat, lv[j]),
        ));
        i = i + 1;
    }
    out
}

/// Bytes of one numbered row plus its newline: the number padded to the
/// wider of `end` and `n`, the `|`, the line.
pub open spec fn row_len(n: nat, end: nat, line: Seq<char>) -> nat {
    let w = if dec(end).len() >= dec(n).len() {
        dec(end).len()
    } else {
        dec(n).len()
    };
    w + 1 + utf8_len(line) + 1
}

/// How many leading lines fit the budget `b` from line `i` on; the first
/// line is always kept.
pub open spec fn budget_prefix(start: nat, end: nat, ls: Seq<Seq<char>>, i: int, b: int) -> int
    decreases ls.len() - i,
{
    if i < 0 || i >= ls.len() {
        i
    } else {
        let rl = row_len((start + i) as nat, end, ls[i]);
        if i == 0 || b >= rl {
            budget_prefix(
                start,
                end,
                ls,
                i + 1,
                if b >= rl {
                    b - rl
                } else {
                    0
                },
            )
        } else {
            i
        }
    }
}

proof fn lemma_budget_prefix_range(start: nat, end: nat, ls: Seq<Seq<char>>, i: int, b: int)
    requires
        0 <= i <= ls.len(),
    ensures
        i <= budget_prefix(start, end, ls, i, b) <= ls.len(),
        i == 0 && ls.len() > 0 ==> budget_prefix(start, end, ls, i, b) >= 1,
    decreases ls.len() - i,
{
    if i < ls.len() {
        let rl = row_len((start + i) as nat, end, ls[i]);
        if i == 0 || b >= rl {
            lemma_budget_prefix_range(
                start,
                end,
                ls,
                i + 1,
                if b >= rl {
                    b - rl
                } else {
                    0
                },
            );
        }
    }
}

/// [`apply_char_budget`]: the last line kept and the kept lines.
pub open spec fn budgeted(start: nat, end: nat, ls: Seq<Seq<char>>) -> (nat, Seq<Seq<char>>) {
    if ls.len() == 0 {
        (end, ls)
    } else {
        let k = budget_prefix(start, end, ls, 0, 48000);
        ((start + k - 1) as nat, ls.take(k))
    }
}

fn max_usize(a: usize, b: usize) -> (r: usize)
    ensures
        r == if a >= b {
            a
        } else {
            b
        },
{
    if a >= b {
        a
    } else {
        b
    }
}

/// Shrink `end` so the formatted lines fit in [`READ_CHAR_BUDGET`] bytes,
/// keeping at least the first line.
pub fn apply_char_budget(start: u64, end: u64, lines_in: Vec<String>) -> (r: (u64, Vec<String>))
    requires
        lines_in.len() > 0 ==> start + lines_in.len() - 1 <= u64::MAX,
    ensures
        r.0 == budgeted(start as nat, end as nat, strings_view(lines_in@)).0,
        strings_view(r.1@) == budgeted(start as nat, end as nat, strings_view(lines_in@)).1,
{
    let ghost lv = strings_view(lines_in@);
    if lines_in.len() == 0 {
        return (end, lines_in);
    }
    let end_w = dec_chars(end).len();
    let mut budget: usize = READ_CHAR_BUDGET;
    let mut k: usize = 0;
    let ghost b0: int = 48000;
    proof {
        lemma_budget_prefix_range(start as nat, end as nat, lv, 0, 48000);
    }
    while k < lines_in.len()
        invariant_except_break
            budget_prefix(start as nat, end as nat, lv, 0, 48000) == budget_prefix(
                start as nat,
                end as nat,
                lv,
                k as int,
                budget as int,
            ),
        invariant
            k <= lines_in.len(),
            lines_in.len() > 0,
            start + lines_in.len() - 1 <= u64::MAX,
            budget <= 48000,
            end_w == dec(end as nat).len(),
            lv == strings_view(lines_in@),
        ensures
            k <= lines_in.len(),
            k == budget_prefix(start as nat, end as nat, lv, 0, 48000),
        decreases lines_in.len() - k,
    {
        let n: u64 = start + k as u64;
        let n_w = dec_chars(n).len();
        let w = max_usize(end_w, n_w);
        assert(lines_in@[k as int]@ == lv[k as int]);
        let line_cs = chars_of(lines_in[k].as_str());
        let line_len = utf8_len_upto(line_cs.as_slice(), READ_CHAR_BUDGET);
        // Row length, capped above the budget (only its comparison with
        // the budget matters).
        let fits: bool;
        let rl: usize;
        match line_len {
            Some(bytes) => {
                if w > READ_CHAR_BUDGET {
                    fits = false;
                    rl = 0;
                } else {
                    rl = w + 1 + bytes + 1;
                    fits = budget >= rl;
                }
            },
            None => {
                fits = false;
                rl = 0;
            },
        }
        proof {
            let srl = row_len((start + k) as nat, end as nat, lv[k as int]);
            assert(fits == (budget >= srl));
            assert(fits ==> rl == srl);
        }
        if k == 0 || fits {
            if fits {
                budget = budget - rl;
            } else {
                budget = 0;
            }
            k = k + 1;
        } else {
            break;
        }
    }
    let mut kept = lines_in;
    kept.truncate(k);
    assert(strings_view(kept@) =~= lv.take(k as int));
    proof {
        lemma_budget_prefix_range(start as nat, end as nat, lv, 0, 48000);
    }
    (start + ((k as u64) - 1), kept)
}

// ---------------------------------------------------------------------
// Read
// ---------------------------------------------------------------------

/// The radius actually used.
pub open spec fn clamp_radius(radius: u64) -> nat {
    if radius <= 200 {
        radius as nat
    } else {
        200
    }
}

/// The window a request selects in a file of `total > 0` lines, or why
/// it is refused.
pub open spec fn window(
    total: nat,
    line: Option<u64>,
    radius: u64,
    range: Option<(u64, u64)>,
    limit: u64,
) -> Result<(nat, nat), SError> {
    let r = clamp_radius(radius);
    match line {
        Some(l) => if l < 1 || l > total {
            Err(
                SError::Io(
                    "line "@ + dec(l as nat) + " out of range 1..="@ + dec(total),
                ),
            )
        } else {
            Ok(
                (
                    if l > r + 1 {
                        (l - r) as nat
                    } else {
                        1
                    },
                    if l + r <= total {
                        (l + r) as nat
                    } else {
                        total
                    },
                ),
            )
        },
        None => match range {
            Some((s, e)) => if s < 1 || e < s || e > total {
                Err(
                    SError::Io(
                        "range "@ + dec(s as nat) + "-"@ + dec(e as nat) + " out of 1..="@ + dec(
                            total,
                        ),
                    ),
                )
            } else if e - s + 1 > limit {
                Err(SError::RangeTooLarge((e - s + 1) as nat, limit as nat))
            } else {
                Ok((s as nat, e as nat))
            },
            None => if total <= limit {
                Ok((1, total))
            } else {
                Err(SError::RangeRequired(total))
            },
        },
    }
}

/// A read result as a specification value: start, end, total, lines.
pub struct SReadHit {
    /// 1-based first line returned.
    pub start: nat,
    /// 1-based last line returned.
    pub end: nat,
    /// Total lines in the file.
    pub total: nat,
    /// Returned lines.
    pub text: Seq<Seq<char>>,
}

/// What a bounded read of `text` returns.
pub open spec fn spec_read(
    text: Seq<char>,
    line: Option<u64>,
    radius: u64,
    range: Option<(u64, u64)>,
    limit: u64,
) -> Result<SReadHit, SError> {
    let ls = lines(text);
    let total = ls.len();
    if total == 0 {
        Ok(SReadHit { start: 1, end: 0, total: 0, text: Seq::empty() })
    } else {
        match window(total, line, radius, range, limit) {
            Err(e) => Err(e),
            Ok((s, e)) => {
                let shown = slice_view(ls, s, e);
                let (end, kept) = budgeted(s, e, shown);
                Ok(SReadHit { start: s, end, total, text: kept })
            },
        }
    }
}

impl ReadHit {
    /// The hit as a specification value (without the path).
    pub open spec fn sv(&self) -> SReadHit {
        SReadHit {
            start: self.start as nat,
            end: self.end as nat,
            total: self.total as nat,
            text: strings_view(self.text@),
        }
    }
}

fn io_error_line(l: u64, total: u64) -> (r: Error)
    ensures
        r.sv() == SError::Io("line "@ + dec(l as nat) + " out of range 1..="@ + dec(total as nat)),
{
    let mut m: Vec<char> = Vec::new();
    push_str_chars(&mut m, "line ");
    let d = dec_chars(l);
    push_chars(&mut m, d.as_slice());
    push_str_chars(&mut m, " out of range 1..=");
    let t = dec_chars(total);
    push_chars(&mut m, t.as_slice());
    Error::Io(string_from(m.as_slice()))
}

fn io_error_range(s: u64, e: u64, total: u64) -> (r: Error)
    ensures
        r.sv() == SError::Io(
            "range "@ + dec(s as nat) + "-"@ + dec(e as nat) + " out of 1..="@ + dec(total as nat),
        ),
{
    let mut m: Vec<char> = Vec::new();
    push_str_chars(&mut m, "range ");
    let d = dec_chars(s);
    push_chars(&mut m, d.as_slice());
    push_str_chars(&mut m, "-");
    let d2 = dec_chars(e);
    push_chars(&mut m, d2.as_slice());
    push_str_chars(&mut m, " out of 1..=");
    let t = dec_chars(total);
    push_chars(&mut m, t.as_slice());
    Error::Io(string_from(m.as_slice()))
}

/// Bounded read of a loaded file.
///
/// - `line` (`Some`, 1-based) wins over `range`: the window
///   `[line-radius, line+radius]` clamped to the file (radius at most
///   [`MAX_RADIUS`]).
/// - `range` (`Some((start, end))`, 1-based inclusive): exactly that,
///   when it lies in the file and spans at most `limit_lines`.
/// - Neither: the whole file iff it has at most `limit_lines` lines,
///   else [`Error::RangeRequired`].
///
/// The returned lines are displayed forms ([`display_line`]) and stop at
/// the byte budget; `end` is the last line returned.
pub fn read(
    file: &LoadedFile,
    line: Option<u64>,
    radius: u64,
    range: Option<(u64, u64)>,
    limit_lines: u64,
) -> (r: Result<ReadHit, Error>)
    ensures
        match r {
            Ok(hit) => spec_read(file.text@, line, radius, range, limit_lines) == Ok::<
                SReadHit,
                SError,
            >(hit.sv()) && hit.path@ == file.path@,
            Err(e) => spec_read(file.text@, line, radius, range, limit_lines) == Err::<
                SReadHit,
                SError,
            >(e.sv()),
        },
{
    let radius = if radius <= MAX_RADIUS {
        radius
    } else {
        MAX_RADIUS
    };
    let cs = chars_of(file.text.as_str());
    let ls = split_lines(cs.as_slice());
    let ghost lv = ls@.map_values(|v: Vec<char>| v@);
    let total = ls.len() as u64;
    if total == 0 {
        let hit = ReadHit {
            path: file.path.clone(),
            start: 1,
            end: 0,
            total: 0,
            text: Vec::new(),
        };
        assert(strings_view(hit.text@) =~= Seq::<Seq<char>>::empty());
        return Ok(hit);
    }
    let (start, end) = match line {
        Some(l) => {
            if l < 1 || l > total {
                return Err(io_error_line(l, total));
            }
            let s = if l > radius + 1 {
                l - radius
            } else {
                1
            };
            let e = if total - l >= radius {
                l + radius
            } else {
                total
            };
            (s, e)
        },
        None => match range {
            Some((s, e)) => {
                if s < 1 || e < s || e > total {
                    return Err(io_error_range(s, e, total));
                }
                let span = e - s + 1;
                if span > limit_lines {
                    return Err(Error::RangeTooLarge { span, max: limit_lines });
                }
                (s, e)
            },
            None => {
                if total <= limit_lines {
                    (1, total)
                } else {
                    return Err(Error::RangeRequired { lines: total });
                }
            },
        },
    };
    let shown = slice_lines(ls.as_slice(), start, end);
    let (end2, kept) = apply_char_budget(start, end, shown);
    Ok(ReadHit { path: file.path.clone(), start, end: end2, total, text: kept })
}

/// `start` and `end` given together make a range and neither makes none;
/// one without the other is refused (`None`).
pub fn pair_range(start: Option<u64>, end: Option<u64>) -> (r: Option<Option<(u64, u64)>>)
    ensures
        r == match (start, end) {
            (None, None) => Some(None),
            (Some(s), Some(e)) => Some(Some((s, e))),
            _ => None::<Option<(u64, u64)>>,
        },
{
    match (start, end) {
        (None, None) => Some(None),
        (Some(s), Some(e)) => Some(Some((s, e))),
        _ => None,
    }
}

impl ReadHit {
    /// `path:start-end of total lines`.
    pub fn header(&self) -> (r: String)
        ensures
            r@ == self.path@ + ":"@ + dec(self.start as nat) + "-"@ + dec(self.end as nat)
                + " of "@ + dec(self.total as nat) + " lines"@,
    {
        let mut m: Vec<char> = Vec::new();
        push_str_chars(&mut m, self.path.as_str());
        push_str_chars(&mut m, ":");
        let a = dec_chars(self.start);
        push_chars(&mut m, a.as_slice());
        push_str_chars(&mut m, "-");
        let b = dec_chars(self.end);
        push_chars(&mut m, b.as_slice());
        push_str_chars(&mut m, " of ");
        let c = dec_chars(self.total);
        push_chars(&mut m, c.as_slice());
        push_str_chars(&mut m, " lines");
        string_from(m.as_slice())
    }
}

/// A read returns the file's own lines: the `k`-th returned text is the
/// displayed form of line `start + k` (1-based) of the file, so the texts
/// are lines `start..=end` in order. The window is where the request puts
/// it: around `line` it starts at most `min(radius, 200)` lines before the
/// anchor (at line 1 only when the anchor is that close to the top) and
/// ends at most as far after it; an explicit range starts at its start and
/// ends no later than its end; a whole-file read starts at line 1 and
/// covers a file of at most `limit` lines.
pub proof fn law_read_returns_file_lines(
    text: Seq<char>,
    line: Option<u64>,
    radius: u64,
    range: Option<(u64, u64)>,
    limit: u64,
)
    requires
        spec_read(text, line, radius, range, limit) is Ok,
    ensures
        ({
            let h = spec_read(text, line, radius, range, limit)->Ok_0;
            let ls = lines(text);
            let r: int = if radius <= 200 {
                radius as int
            } else {
                200
            };
            &&& h.total == ls.len()
            &&& h.start >= 1
            &&& h.start - 1 + h.text.len() <= ls.len()
            &&& forall|k: int|
                0 <= k < h.text.len() ==> #[trigger] h.text[k] == display_line(
                    ls[h.start - 1 + k],
                )
            &&& ls.len() > 0 ==> h.end == h.start + h.text.len() - 1
            &&& (ls.len() > 0 && line is Some) ==> ({
                let l = line->0;
                h.start <= l && l - h.start <= r && (h.start == 1 || l - h.start == r) && h.end
                    <= l + r
            })
            &&& (ls.len() > 0 && line is None && range is Some) ==> ({
                let (s, e) = range->0;
                h.start == s && h.end <= e
            })
            &&& ls.len() > 0 ==> (line is None && range is None ==> h.start == 1 && ls.len()
                <= limit)
        }),
{
    let ls = lines(text);
    let total = ls.len();
    if total > 0 {
        law_read_is_bounded(text, line, radius, range, limit);
        let (s, e) = window(total, line, radius, range, limit)->Ok_0;
        let shown = slice_view(ls, s, e);
        let h = spec_read(text, line, radius, range, limit)->Ok_0;
        lemma_budget_prefix_range(s, e, shown, 0, 48000);
        assert(shown.len() == e - s + 1);
        assert forall|k: int| 0 <= k < h.text.len() implies #[trigger] h.text[k] == display_line(
            ls[h.start - 1 + k],
        ) by {
            assert(h.text[k] == shown[k]);
            assert(shown[k] == display_line(ls.subrange(s - 1, e as int)[k]));
        }
    }
}

/// What a read of a non-empty file refuses, over all requests: an anchor
/// line outside the file and a range outside the file are I/O errors; a
/// range inside the file that spans more than `limit` lines is refused as
/// too large, with its span and the limit; a whole-file read of more than
/// `limit` lines asks for a range, naming the line count. A whole-file
/// read of at most `limit` lines, an anchor line inside the file and a
/// range inside it of at most `limit` lines succeed.
pub proof fn law_read_refusals(
    text: Seq<char>,
    line: Option<u64>,
    radius: u64,
    range: Option<(u64, u64)>,
    limit: u64,
)
    requires
        lines(text).len() > 0,
    ensures
        ({
            let total = lines(text).len();
            let r = spec_read(text, line, radius, range, limit);
            &&& (line is Some) ==> ((r is Ok) == (1 <= line->0 <= total) && (r is Err ==> r->Err_0
                is Io))
            &&& (line is None && range is Some) ==> ({
                let (s, e) = range->0;
                &&& !(1 <= s <= e <= total) ==> (r is Err && r->Err_0 is Io)
                &&& (1 <= s <= e <= total && e - s + 1 > limit) ==> r == Err::<SReadHit, SError>(
                    SError::RangeTooLarge((e - s + 1) as nat, limit as nat),
                )
                &&& (1 <= s <= e <= total && e - s + 1 <= limit) ==> r is Ok
            })
            &&& (line is None && range is None) ==> ((total > limit ==> r == Err::<
                SReadHit,
                SError,
            >(SError::RangeRequired(total))) && (total <= limit ==> r is Ok))
        }),
{
}

// ---------------------------------------------------------------------
// Laws
// ---------------------------------------------------------------------

/// A successful read of a non-empty file returns a window inside the
/// file, one returned text per line of the window, and never more than
/// `2 * MAX_RADIUS + 1` lines around a `line`, or more than `limit`
/// lines otherwise: never an unbounded whole-file dump.
pub proof fn law_read_is_bounded(
    text: Seq<char>,
    line: Option<u64>,
    radius: u64,
    range: Option<(u64, u64)>,
    limit: u64,
)
    requires
        spec_read(text, line, radius, range, limit) is Ok,
        lines(text).len() > 0,
    ensures
        ({
            let h = spec_read(text, line, radius, range, limit)->Ok_0;
            &&& 1 <= h.start <= h.end <= h.total
            &&& h.total == lines(text).len()
            &&& h.text.len() == h.end - h.start + 1
            &&& line is Some ==> h.text.len() <= 2 * 200 + 1
            &&& line is None ==> h.text.len() <= limit
        }),
{
    let ls = lines(text);
    let total = ls.len();
    let (s, e) = window(total, line, radius, range, limit)->Ok_0;
    let shown = slice_view(ls, s, e);
    assert(shown.len() == e - s + 1);
    lemma_budget_prefix_range(s, e, shown, 0, 48000);
}

/// A displayed line is the line itself when it fits [`MAX_LINE_CHARS`]
/// bytes; otherwise a prefix of it that fits, with the marker after it.
pub proof fn law_display_line_fits(line: Seq<char>)
    ensures
        utf8_len(line) <= 8192 ==> display_line(line) == line,
        utf8_len(line) > 8192 ==> ({
            let k = fit_prefix(line, 8192);
            &&& k <= line.len()
            &&& utf8_len(line.take(k as int)) <= 8192
            &&& display_line(line) == line.take(k as int) + TRUNCATED_LINE_MARKER@
        }),
{
    lemma_fit_prefix_le(line, 8192);
    lemma_fit_prefix_bytes(line, 8192);
}

proof fn lemma_fit_prefix_bytes(s: Seq<char>, max: nat)
    ensures
        fit_prefix(s, max) <= s.len(),
        utf8_len(s.take(fit_prefix(s, max) as int)) <= max,
    decreases s.len(),
{
    lemma_fit_prefix_le(s, max);
    let k = fit_prefix(s, max);
    if s.len() > 0 && char_width(s[0]) <= max {
        let rest = s.drop_first();
        let m2 = (max - char_width(s[0])) as nat;
        lemma_fit_prefix_bytes(rest, m2);
        let k2 = fit_prefix(rest, m2);
        assert(s.take(k as int) == seq![s[0]] + rest.take(k2 as int));
        crate::text::lemma_encode_concat(seq![s[0]], rest.take(k2 as int));
        crate::text::lemma_utf8_len_push(Seq::<char>::empty(), s[0]);
        assert(Seq::<char>::empty().push(s[0]) == seq![s[0]]);
        assert(vstd::utf8::encode_utf8(Seq::<char>::empty()) == Seq::<u8>::empty());
    } else {
        assert(s.take(0) == Seq::<char>::empty());
        assert(vstd::utf8::encode_utf8(Seq::<char>::empty()) == Seq::<u8>::empty());
    }
}

} // verus!
