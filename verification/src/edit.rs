//! Exact-string edits that return a short diff.
//!
//! After an edit the agent gets the diff back instead of re-reading the
//! file to check its own write. Fail closed: the match must be unique
//! unless `all` is set, and the returned diff is capped.

use vstd::prelude::*;

use crate::read;
use crate::read::strings_view;
use crate::text::{
    chars_eq, chars_of, chars_occurs_at, dec, dec_chars, lines, occurs_at, push_chars,
    push_str_chars, split_lines, string_from, sub_chars,
};

verus! {

/// Max diff lines returned per edit (the rest is cut with a marker).
pub const DIFF_CAP_LINES: usize = 60;

/// Context lines on each side of the hunk in the returned diff.
pub const DIFF_CONTEXT_LINES: usize = 3;

/// Edit errors: caller-visible, never dump unrelated file regions.
#[derive(Debug, Clone, PartialEq, Eq)]
pub enum Error {
    /// Read-gate errors (escape, binary, missing file).
    Read(read::Error),
    /// Old text not found, or found more than once without `all`.
    NoMatch(String),
}

/// An edit error as a specification value.
pub enum SError {
    /// Read-gate error.
    Read(read::SError),
    /// No unique match, with its message.
    NoMatch(Seq<char>),
}

impl Error {
    /// The error as a specification value.
    pub open spec fn sv(&self) -> SError {
        match self {
            Error::Read(e) => SError::Read(e.sv()),
            Error::NoMatch(m) => SError::NoMatch(m@),
        }
    }

    /// Human-readable message.
    pub fn message(&self) -> (r: String)
        ensures
            r@ == spec_message(self.sv()),
    {
        match self {
            Error::Read(e) => e.message(),
            Error::NoMatch(m) => m.clone(),
        }
    }
}

/// The message of an edit error: a read error shows through unchanged.
pub open spec fn spec_message(e: SError) -> Seq<char> {
    match e {
        SError::Read(r) => read::spec_message(r),
        SError::NoMatch(m) => m,
    }
}

/// One applied edit.
#[derive(Debug, Clone, PartialEq, Eq)]
pub struct EditHit {
    /// File path.
    pub path: String,
    /// 1-based first changed line.
    pub start: u64,
    /// 1-based last changed line (inclusive, in the *new* file).
    pub end: u64,
    /// Replacements applied.
    pub applied: usize,
    /// Unified-style diff, capped at [`DIFF_CAP_LINES`] lines.
    pub diff: Vec<String>,
}

/// An applied edit as a specification value.
pub struct SEditHit {
    /// File path.
    pub path: Seq<char>,
    /// 1-based first changed line.
    pub start: nat,
    /// 1-based last changed line in the new file.
    pub end: nat,
    /// Replacements applied.
    pub applied: nat,
    /// Diff rows.
    pub diff: Seq<Seq<char>>,
}

impl EditHit {
    /// The hit as a specification value.
    pub open spec fn sv(&self) -> SEditHit {
        SEditHit {
            path: self.path@,
            start: self.start as nat,
            end: self.end as nat,
            applied: self.applied as nat,
            diff: strings_view(self.diff@),
        }
    }
}

// ---------------------------------------------------------------------
// Matching and replacing
// ---------------------------------------------------------------------

/// Occurrences of `p` in `s` from position `i` on, counted left to right
/// without overlap.
pub open spec fn count_from(s: Seq<char>, p: Seq<char>, i: int) -> nat
    decreases s.len() - i,
{
    if p.len() == 0 || i < 0 || i + p.len() > s.len() {
        0
    } else if occurs_at(s, p, i) {
        1 + count_from(s, p, i + p.len())
    } else {
        count_from(s, p, i + 1)
    }
}

/// Non-overlapping occurrences of `p` in `s` (`str::matches(..).count()`).
pub open spec fn count_matches(s: Seq<char>, p: Seq<char>) -> nat {
    count_from(s, p, 0)
}

/// `s[i..]` with every non-overlapping occurrence of `p` (left to right)
/// replaced by `new`.
pub open spec fn replace_from(s: Seq<char>, p: Seq<char>, new: Seq<char>, i: int) -> Seq<char>
    decreases s.len() - i,
{
    if i < 0 || i > s.len() {
        Seq::empty()
    } else if p.len() == 0 || i + p.len() > s.len() {
        s.skip(i)
    } else if occurs_at(s, p, i) {
        new + replace_from(s, p, new, i + p.len())
    } else {
        seq![s[i]] + replace_from(s, p, new, i + 1)
    }
}

/// `s` with every non-overlapping occurrence of `p` replaced by `new`
/// (`str::replace`).
pub open spec fn replace_all(s: Seq<char>, p: Seq<char>, new: Seq<char>) -> Seq<char> {
    replace_from(s, p, new, 0)
}

/// Counts the non-overlapping occurrences of `p` in `s`.
pub fn count_occurrences(s: &[char], p: &[char]) -> (r: usize)
    requires
        p.len() > 0,
    ensures
        r == count_matches(s@, p@),
{
    let mut cnt: usize = 0;
    let mut i: usize = 0;
    while p.len() <= s.len() - i
        invariant
            p.len() > 0,
            i <= s.len(),
            cnt <= i,
            cnt + count_from(s@, p@, i as int) == count_from(s@, p@, 0),
        decreases s.len() - i,
    {
        if chars_occurs_at(s, p, i) {
            cnt = cnt + 1;
            i = i + p.len();
        } else {
            i = i + 1;
        }
    }
    cnt
}

/// Replaces every non-overlapping occurrence of `p` in `s` by `new`.
pub fn replace_occurrences(s: &[char], p: &[char], new: &[char]) -> (r: Vec<char>)
    requires
        p.len() > 0,
    ensures
        r@ == replace_all(s@, p@, new@),
{
    let mut out: Vec<char> = Vec::new();
    let mut i: usize = 0;
    while p.len() <= s.len() - i
        invariant
            p.len() > 0,
            i <= s.len(),
            out@ + replace_from(s@, p@, new@, i as int) == replace_all(s@, p@, new@),
        decreases s.len() - i,
    {
        let ghost before = out@;
        if chars_occurs_at(s, p, i) {
            push_chars(&mut out, new);
            assert(before + replace_from(s@, p@, new@, i as int) == out@ + replace_from(
                s@,
                p@,
                new@,
                i + p.len(),
            ));
            i = i + p.len();
        } else {
            out.push(s[i]);
            assert(before + replace_from(s@, p@, new@, i as int) == out@ + replace_from(
                s@,
                p@,
                new@,
                i + 1,
            ));
            i = i + 1;
        }
    }
    let rest = sub_chars(s, i, s.len());
    push_chars(&mut out, rest.as_slice());
    out
}

// ---------------------------------------------------------------------
// Change span
// ---------------------------------------------------------------------

/// The characters of each line.
pub open spec fn lines_view(v: Seq<Vec<char>>) -> Seq<Seq<char>> {
    v.map_values(|x: Vec<char>| x@)
}

/// Length of the longest common prefix of `b` and `a`.
pub open spec fn common_prefix(b: Seq<Seq<char>>, a: Seq<Seq<char>>) -> nat
    decreases b.len(),
{
    if b.len() > 0 && a.len() > 0 && b[0] == a[0] {
        1 + common_prefix(b.drop_first(), a.drop_first())
    } else {
        0
    }
}

/// Length of the longest common suffix of `b` and `a`.
pub open spec fn common_suffix(b: Seq<Seq<char>>, a: Seq<Seq<char>>) -> nat
    decreases b.len(),
{
    if b.len() > 0 && a.len() > 0 && b.last() == a.last() {
        1 + common_suffix(b.drop_last(), a.drop_last())
    } else {
        0
    }
}

/// The 0-based span `(first, last_b, last_a)` covering all differing
/// lines: the common prefix ends at `first`, and the common suffix of
/// what follows starts at `last_b` in `b` and `last_a` in `a`.
pub open spec fn change_span(b: Seq<Seq<char>>, a: Seq<Seq<char>>) -> (nat, nat, nat) {
    let f = common_prefix(b, a);
    let k = common_suffix(b.skip(f as int), a.skip(f as int));
    (f, (b.len() - k) as nat, (a.len() - k) as nat)
}

proof fn lemma_common_prefix_step(b: Seq<Seq<char>>, a: Seq<Seq<char>>, i: int)
    requires
        0 <= i < b.len(),
        i < a.len(),
        b[i] == a[i],
    ensures
        common_prefix(b.skip(i), a.skip(i)) == 1 + common_prefix(b.skip(i + 1), a.skip(i + 1)),
{
    assert(b.skip(i).drop_first() =~= b.skip(i + 1));
    assert(a.skip(i).drop_first() =~= a.skip(i + 1));
}

proof fn lemma_common_prefix_bounds(b: Seq<Seq<char>>, a: Seq<Seq<char>>)
    ensures
        common_prefix(b, a) <= b.len(),
        common_prefix(b, a) <= a.len(),
        b.take(common_prefix(b, a) as int) == a.take(common_prefix(b, a) as int),
    decreases b.len(),
{
    if b.len() > 0 && a.len() > 0 && b[0] == a[0] {
        lemma_common_prefix_bounds(b.drop_first(), a.drop_first());
        let k = common_prefix(b.drop_first(), a.drop_first());
        assert(b.take(k + 1 as int) =~= seq![b[0]] + b.drop_first().take(k as int));
        assert(a.take(k + 1 as int) =~= seq![a[0]] + a.drop_first().take(k as int));
    } else {
        assert(b.take(0) =~= a.take(0));
    }
}

proof fn lemma_common_suffix_bounds(b: Seq<Seq<char>>, a: Seq<Seq<char>>)
    ensures
        common_suffix(b, a) <= b.len(),
        common_suffix(b, a) <= a.len(),
        b.skip(b.len() - common_suffix(b, a)) == a.skip(a.len() - common_suffix(b, a)),
    decreases b.len(),
{
    if b.len() > 0 && a.len() > 0 && b.last() == a.last() {
        lemma_common_suffix_bounds(b.drop_last(), a.drop_last());
        let k = common_suffix(b.drop_last(), a.drop_last());
        assert(b.skip(b.len() - (k + 1)) =~= b.drop_last().skip(b.len() - 1 - k).push(b.last()));
        assert(a.skip(a.len() - (k + 1)) =~= a.drop_last().skip(a.len() - 1 - k).push(a.last()));
    } else {
        assert(b.skip(b.len() as int) =~= a.skip(a.len() as int));
    }
}

/// The span of lines that differ between `b` and `a`.
pub fn change_span_of(b: &[Vec<char>], a: &[Vec<char>]) -> (r: (usize, usize, usize))
    ensures
        ({
            let (f, lb, la) = change_span(lines_view(b@), lines_view(a@));
            r.0 == f && r.1 == lb && r.2 == la
        }),
        r.0 <= r.1 <= b.len(),
        r.0 <= r.2 <= a.len(),
{
    let ghost bv = lines_view(b@);
    let ghost av = lines_view(a@);
    let mut first: usize = 0;
    assert(bv.skip(0) == bv && av.skip(0) == av);
    while first < b.len() && first < a.len() && chars_eq(b[first].as_slice(), a[first].as_slice())
        invariant
            first <= b.len(),
            first <= a.len(),
            bv == lines_view(b@),
            av == lines_view(a@),
            common_prefix(bv, av) == first + common_prefix(
                bv.skip(first as int),
                av.skip(first as int),
            ),
        decreases b.len() - first,
    {
        proof {
            lemma_common_prefix_step(bv, av, first as int);
        }
        first = first + 1;
    }
    assert(common_prefix(bv.skip(first as int), av.skip(first as int)) == 0) by {
        if first < b.len() && first < a.len() {
            assert(bv.skip(first as int)[0] == bv[first as int]);
            assert(av.skip(first as int)[0] == av[first as int]);
        }
    }
    let ghost bs = bv.skip(first as int);
    let ghost as_ = av.skip(first as int);
    let mut last_b: usize = b.len();
    let mut last_a: usize = a.len();
    assert(bv.subrange(first as int, last_b as int) == bs);
    assert(av.subrange(first as int, last_a as int) == as_);
    while last_b > first && last_a > first && chars_eq(
        b[last_b - 1].as_slice(),
        a[last_a - 1].as_slice(),
    )
        invariant
            first <= last_b <= b.len(),
            first <= last_a <= a.len(),
            b.len() - last_b == a.len() - last_a,
            bv == lines_view(b@),
            av == lines_view(a@),
            bs == bv.skip(first as int),
            as_ == av.skip(first as int),
            common_suffix(bs, as_) == (b.len() - last_b) + common_suffix(
                bv.subrange(first as int, last_b as int),
                av.subrange(first as int, last_a as int),
            ),
        decreases last_b,
    {
        assert(bv.subrange(first as int, last_b as int).drop_last() =~= bv.subrange(
            first as int,
            last_b - 1,
        ));
        assert(av.subrange(first as int, last_a as int).drop_last() =~= av.subrange(
            first as int,
            last_a - 1,
        ));
        last_b = last_b - 1;
        last_a = last_a - 1;
    }
    assert(common_suffix(
        bv.subrange(first as int, last_b as int),
        av.subrange(first as int, last_a as int),
    ) == 0);
    proof {
        lemma_common_suffix_bounds(bs, as_);
    }
    (first, last_b, last_a)
}

// ---------------------------------------------------------------------
// Bounded diff
// ---------------------------------------------------------------------

/// Each line behind a one-character mark.
pub open spec fn prefixed(mark: char, ls: Seq<Seq<char>>) -> Seq<Seq<char>> {
    Seq::new(ls.len(), |k: int| seq![mark] + ls[k])
}

/// The hunk header `@@ -s,o +s,n @@` (`s` 1-based).
pub open spec fn diff_header(ctx_start: nat, old_count: nat, new_count: nat) -> Seq<char> {
    "@@ -"@ + dec(ctx_start + 1) + ","@ + dec(old_count) + " +"@ + dec(ctx_start + 1) + ","@
        + dec(new_count) + " @@"@
}

/// The marker row that ends a cut diff.
pub open spec fn truncated_marker() -> Seq<char> {
    "... (diff truncated)"@
}

/// `x + 3`, but no more than `len`.
pub open spec fn ctx_end(x: nat, len: nat) -> nat {
    if x + 3 <= len {
        x + 3
    } else {
        len
    }
}

/// The uncapped diff rows: header, leading context, removed lines, added
/// lines, trailing context.
pub open spec fn diff_rows(
    b: Seq<Seq<char>>,
    a: Seq<Seq<char>>,
    first: nat,
    last_b: nat,
    last_a: nat,
) -> Seq<Seq<char>> {
    let cs: nat = if first >= 3 {
        (first - 3) as nat
    } else {
        0
    };
    let ceb = ctx_end(last_b, b.len());
    let cea = ctx_end(last_a, a.len());
    seq![diff_header(cs, (ceb - cs) as nat, (cea - cs) as nat)] + prefixed(
        ' ',
        b.subrange(cs as int, first as int),
    ) + prefixed('-', b.subrange(first as int, last_b as int)) + prefixed(
        '+',
        a.subrange(first as int, last_a as int),
    ) + prefixed(' ', b.subrange(last_b as int, ceb as int))
}

/// The diff around the changed span, at most [`DIFF_CAP_LINES`] rows: a
/// longer one keeps its first `DIFF_CAP_LINES - 1` rows and ends with the
/// truncation marker.
pub open spec fn bounded(rows: Seq<Seq<char>>) -> Seq<Seq<char>> {
    if rows.len() > 60 {
        rows.take(59).push(truncated_marker())
    } else {
        rows
    }
}

/// The diff for the span `(first, last_b, last_a)` of `b` against `a`.
pub open spec fn diff_lines(
    b: Seq<Seq<char>>,
    a: Seq<Seq<char>>,
    first: nat,
    last_b: nat,
    last_a: nat,
) -> Seq<Seq<char>> {
    bounded(diff_rows(b, a, first, last_b, last_a))
}

/// Appends `mark + src[k]` for each `k` in `from..to`.
fn push_rows(out: &mut Vec<String>, mark: char, src: &[Vec<char>], from: usize, to: usize)
    requires
        from <= to <= src.len(),
    ensures
        strings_view(final(out)@) == strings_view(old(out)@) + prefixed(
            mark,
            lines_view(src@).subrange(from as int, to as int),
        ),
{
    let ghost sv = lines_view(src@);
    let mut i: usize = from;
    while i < to
        invariant
            from <= i <= to <= src.len(),
            sv == lines_view(src@),
            strings_view(out@) == strings_view(old(out)@) + prefixed(
                mark,
                sv.subrange(from as int, i as int),
            ),
        decreases to - i,
    {
        let mut row: Vec<char> = Vec::new();
        row.push(mark);
        push_chars(&mut row, src[i].as_slice());
        let ghost before = out@;
        let s = string_from(row.as_slice());
        out.push(s);
        assert(strings_view(out@) =~= strings_view(before).push(row@));
        assert(prefixed(mark, sv.subrange(from as int, i + 1)) =~= prefixed(
            mark,
            sv.subrange(from as int, i as int),
        ).push(seq![mark] + sv[i as int]));
        i = i + 1;
    }
}

/// `x + 3`, but no more than `len`.
fn ctx_end_of(x: usize, len: usize) -> (r: usize)
    requires
        x <= len,
    ensures
        r == ctx_end(x as nat, len as nat),
{
    if len - x >= 3 {
        x + 3
    } else {
        len
    }
}

/// Unified-style diff around the changed region with context, capped.
pub fn bounded_diff(
    b: &[Vec<char>],
    a: &[Vec<char>],
    first: usize,
    last_b: usize,
    last_a: usize,
) -> (r: Vec<String>)
    requires
        first <= last_b <= b.len(),
        first <= last_a <= a.len(),
        b.len() < usize::MAX,
    ensures
        strings_view(r@) == diff_lines(
            lines_view(b@),
            lines_view(a@),
            first as nat,
            last_b as nat,
            last_a as nat,
        ),
{
    let cs: usize = if first >= 3 {
        first - 3
    } else {
        0
    };
    let ceb = ctx_end_of(last_b, b.len());
    let cea = ctx_end_of(last_a, a.len());
    let mut header: Vec<char> = Vec::new();
    push_str_chars(&mut header, "@@ -");
    let s1 = dec_chars((cs + 1) as u64);
    push_chars(&mut header, s1.as_slice());
    push_str_chars(&mut header, ",");
    let oc = dec_chars((ceb - cs) as u64);
    push_chars(&mut header, oc.as_slice());
    push_str_chars(&mut header, " +");
    push_chars(&mut header, s1.as_slice());
    push_str_chars(&mut header, ",");
    let nc = dec_chars((cea - cs) as u64);
    push_chars(&mut header, nc.as_slice());
    push_str_chars(&mut header, " @@");
    let mut rows: Vec<String> = Vec::new();
    rows.push(string_from(header.as_slice()));
    assert(strings_view(rows@) =~= seq![header@]);
    push_rows(&mut rows, ' ', b, cs, first);
    push_rows(&mut rows, '-', b, first, last_b);
    push_rows(&mut rows, '+', a, first, last_a);
    push_rows(&mut rows, ' ', b, last_b, ceb);
    let ghost all_rows = strings_view(rows@);
    assert(all_rows == diff_rows(
        lines_view(b@),
        lines_view(a@),
        first as nat,
        last_b as nat,
        last_a as nat,
    ));
    if rows.len() <= DIFF_CAP_LINES {
        return rows;
    }
    let mut out: Vec<String> = Vec::new();
    let mut i: usize = 0;
    while i < DIFF_CAP_LINES - 1
        invariant
            i <= DIFF_CAP_LINES - 1,
            DIFF_CAP_LINES < rows.len(),
            all_rows == strings_view(rows@),
            strings_view(out@) == all_rows.take(i as int),
        decreases DIFF_CAP_LINES - 1 - i,
    {
        let ghost before = out@;
        let row = rows[i].clone();
        assert(row@ == all_rows[i as int]);
        out.push(row);
        assert(strings_view(out@) =~= strings_view(before).push(row@));
        assert(strings_view(out@) =~= all_rows.take(i + 1));
        i = i + 1;
    }
    let ghost before = out@;
    out.push(string_from(chars_of("... (diff truncated)").as_slice()));
    assert(strings_view(out@) =~= strings_view(before).push(truncated_marker()));
    out
}

// ---------------------------------------------------------------------
// Edit
// ---------------------------------------------------------------------

/// Message for an empty search text.
pub open spec fn empty_old_message() -> Seq<char> {
    "old text must not be empty"@
}

/// Message when the search text does not occur.
pub open spec fn not_found_message() -> Seq<char> {
    "old text not found"@
}

/// Message when the search text occurs `n` times without `all`.
pub open spec fn ambiguous_message(n: nat) -> Seq<char> {
    "old text matches "@ + dec(n) + " times; pass --all or narrow it"@
}

/// What replacing `old` by `new` in the text `before` of `path` gives:
/// the hit and the new text, or why it is refused.
pub open spec fn spec_apply(
    path: Seq<char>,
    before: Seq<char>,
    old: Seq<char>,
    new: Seq<char>,
    all: bool,
) -> Result<(SEditHit, Seq<char>), SError> {
    let n = count_matches(before, old);
    if old.len() == 0 {
        Err(SError::NoMatch(empty_old_message()))
    } else if n == 0 {
        Err(SError::NoMatch(not_found_message()))
    } else if n > 1 && !all {
        Err(SError::NoMatch(ambiguous_message(n)))
    } else {
        let updated = replace_all(before, old, new);
        let b = lines(before);
        let a = lines(updated);
        let (f, lb, la) = change_span(b, a);
        Ok(
            (
                SEditHit {
                    path,
                    start: f + 1,
                    end: la,
                    applied: if all {
                        n
                    } else {
                        1
                    },
                    diff: diff_lines(b, a, f, lb, la),
                },
                updated,
            ),
        )
    }
}

/// What editing the file `path` holding `bytes` gives.
pub open spec fn spec_edit(
    path: Seq<char>,
    bytes: Seq<u8>,
    old: Seq<char>,
    new: Seq<char>,
    all: bool,
) -> Result<(SEditHit, Seq<char>), SError> {
    if old.len() == 0 {
        Err(SError::NoMatch(empty_old_message()))
    } else {
        match read::spec_load(path, bytes, true) {
            Err(e) => Err(SError::Read(e)),
            Ok((text, _)) => spec_apply(path, text, old, new, all),
        }
    }
}

/// Refuses an empty search text (checked before the file is touched).
pub fn check_old(old: &str) -> (r: Result<(), Error>)
    ensures
        r is Err <==> old@.len() == 0,
        r matches Err(e) ==> e.sv() == SError::NoMatch(empty_old_message()),
{
    if old.is_empty() {
        Err(Error::NoMatch(string_from(chars_of("old text must not be empty").as_slice())))
    } else {
        Ok(())
    }
}

proof fn lemma_lines_len_le(s: Seq<char>)
    ensures
        lines(s).len() <= s.len(),
    decreases s.len(),
{
    if s.len() > 0 {
        match crate::text::first_index(s, '\n') {
            Some(i) => if 0 <= i < s.len() {
                lemma_lines_len_le(s.skip(i + 1));
            },
            None => {},
        }
    }
}

/// Replaces `old` by `new` in the loaded text `before` of `path`; returns
/// the hit with its bounded diff, and the new text to write.
pub fn apply_edit(path: &str, before: &str, old: &str, new: &str, all: bool) -> (r: Result<
    (EditHit, String),
    Error,
>)
    requires
        before@.len() < usize::MAX,
    ensures
        match r {
            Ok((h, u)) => spec_apply(path@, before@, old@, new@, all) == Ok::<
                (SEditHit, Seq<char>),
                SError,
            >((h.sv(), u@)),
            Err(e) => spec_apply(path@, before@, old@, new@, all) == Err::<
                (SEditHit, Seq<char>),
                SError,
            >(e.sv()),
        },
{
    let oc = chars_of(old);
    if oc.len() == 0 {
        return Err(Error::NoMatch(string_from(chars_of("old text must not be empty").as_slice())));
    }
    let bc = chars_of(before);
    let occurrences = count_occurrences(bc.as_slice(), oc.as_slice());
    if occurrences == 0 {
        return Err(Error::NoMatch(string_from(chars_of("old text not found").as_slice())));
    }
    if occurrences > 1 && !all {
        let mut m: Vec<char> = Vec::new();
        push_str_chars(&mut m, "old text matches ");
        let d = dec_chars(occurrences as u64);
        push_chars(&mut m, d.as_slice());
        push_str_chars(&mut m, " times; pass --all or narrow it");
        return Err(Error::NoMatch(string_from(m.as_slice())));
    }
    let nc = chars_of(new);
    let uc = replace_occurrences(bc.as_slice(), oc.as_slice(), nc.as_slice());
    let updated = string_from(uc.as_slice());
    let applied = if all {
        occurrences
    } else {
        1
    };
    let before_lines = split_lines(bc.as_slice());
    let after_lines = split_lines(uc.as_slice());
    proof {
        lemma_lines_len_le(before@);
    }
    let (first, last_b, last_a) = change_span_of(before_lines.as_slice(), after_lines.as_slice());
    let diff = bounded_diff(
        before_lines.as_slice(),
        after_lines.as_slice(),
        first,
        last_b,
        last_a,
    );
    assert(lines_view(before_lines@) == lines(before@));
    assert(lines_view(after_lines@) == lines(updated@));
    assert(applied == count_matches(before@, old@) || !all);
    let hit = EditHit {
        path: path.to_owned(),
        start: (first + 1) as u64,
        end: last_a as u64,
        applied,
        diff,
    };
    proof {
        let b = lines(before@);
        let a = lines(updated@);
        let (f, lb, la) = change_span(b, a);
        assert(hit.sv().diff == diff_lines(b, a, f, lb, la));
        assert(hit.sv().start == f + 1);
        assert(hit.sv().end == la);
        assert(hit.sv() == SEditHit {
            path: path@,
            start: f + 1,
            end: la,
            applied: if all {
                count_matches(before@, old@)
            } else {
                1
            },
            diff: diff_lines(b, a, f, lb, la),
        });
    }
    Ok((hit, updated))
}

/// Replace `old` with `new` in the file `path` whose content is `bytes`.
///
/// Exactly one occurrence must match unless `all` is set (then every
/// occurrence is replaced). The search text is checked first, then the
/// content goes through the read gate's load checks (binary, UTF-8,
/// generated). Returns the hit with its bounded diff, so the caller does
/// not re-read the file, and the new text to write.
pub fn edit(path: &str, bytes: &[u8], old: &str, new: &str, all: bool) -> (r: Result<
    (EditHit, String),
    Error,
>)
    requires
        bytes@.len() < usize::MAX,
    ensures
        match r {
            Ok((h, u)) => spec_edit(path@, bytes@, old@, new@, all) == Ok::<
                (SEditHit, Seq<char>),
                SError,
            >((h.sv(), u@)),
            Err(e) => spec_edit(path@, bytes@, old@, new@, all) == Err::<
                (SEditHit, Seq<char>),
                SError,
            >(e.sv()),
        },
{
    match check_old(old) {
        Err(e) => {
            return Err(e);
        },
        Ok(()) => {},
    }
    let loaded = match read::load_bytes(path, bytes, true) {
        Ok(f) => f,
        Err(e) => {
            return Err(Error::Read(e));
        },
    };
    proof {
        crate::text::lemma_decode_len_le(bytes@);
    }
    apply_edit(path, loaded.text.as_str(), old, new, all)
}

// ---------------------------------------------------------------------
// Laws
// ---------------------------------------------------------------------

/// The reported span brackets every change: the lines before `first` are
/// the same in both texts, and so are the lines from `last_b` in the old
/// text and from `last_a` in the new one.
pub proof fn law_change_span_brackets_the_change(b: Seq<Seq<char>>, a: Seq<Seq<char>>)
    ensures
        ({
            let (f, lb, la) = change_span(b, a);
            &&& f <= lb <= b.len()
            &&& f <= la <= a.len()
            &&& b.take(f as int) == a.take(f as int)
            &&& b.skip(lb as int) == a.skip(la as int)
        }),
{
    lemma_common_prefix_bounds(b, a);
    let f = common_prefix(b, a);
    let bs = b.skip(f as int);
    let as_ = a.skip(f as int);
    lemma_common_suffix_bounds(bs, as_);
    let k = common_suffix(bs, as_);
    assert(bs.skip(bs.len() - k) =~= b.skip(b.len() - k));
    assert(as_.skip(as_.len() - k) =~= a.skip(a.len() - k));
}

/// The returned diff never holds more than [`DIFF_CAP_LINES`] rows, the
/// truncation marker included; it always opens with the hunk header, and
/// a diff that fits is returned whole.
pub proof fn law_diff_is_capped(
    b: Seq<Seq<char>>,
    a: Seq<Seq<char>>,
    first: nat,
    last_b: nat,
    last_a: nat,
)
    requires
        first <= last_b <= b.len(),
        first <= last_a <= a.len(),
    ensures
        diff_lines(b, a, first, last_b, last_a).len() <= 60,
        diff_lines(b, a, first, last_b, last_a)[0] == diff_rows(b, a, first, last_b, last_a)[0],
        diff_rows(b, a, first, last_b, last_a).len() <= 60 ==> diff_lines(b, a, first, last_b, last_a)
            == diff_rows(b, a, first, last_b, last_a),
        diff_rows(b, a, first, last_b, last_a).len() > 60 ==> diff_lines(b, a, first, last_b, last_a).last()
            == truncated_marker(),
{
}

proof fn lemma_no_match_keeps(s: Seq<char>, p: Seq<char>, new: Seq<char>, i: int)
    requires
        p.len() > 0,
        0 <= i <= s.len(),
        count_from(s, p, i) == 0,
    ensures
        replace_from(s, p, new, i) == s.skip(i),
    decreases s.len() - i,
{
    if i + p.len() <= s.len() {
        lemma_no_match_keeps(s, p, new, i + 1);
        assert(s.skip(i) =~= seq![s[i]] + s.skip(i + 1));
    }
}

proof fn lemma_one_match_splices(s: Seq<char>, p: Seq<char>, new: Seq<char>, i: int) -> (j: int)
    requires
        p.len() > 0,
        0 <= i <= s.len(),
        count_from(s, p, i) == 1,
    ensures
        i <= j,
        occurs_at(s, p, j),
        replace_from(s, p, new, i) == s.subrange(i, j) + new + s.skip(j + p.len()),
    decreases s.len() - i,
{
    if occurs_at(s, p, i) {
        lemma_no_match_keeps(s, p, new, i + p.len());
        assert(s.subrange(i, i) =~= Seq::<char>::empty());
        assert(replace_from(s, p, new, i) =~= s.subrange(i, i) + new + s.skip(i + p.len()));
        i
    } else {
        let j = lemma_one_match_splices(s, p, new, i + 1);
        assert(s.subrange(i, j) =~= seq![s[i]] + s.subrange(i + 1, j));
        assert(replace_from(s, p, new, i) =~= s.subrange(i, j) + new + s.skip(j + p.len()));
        j
    }
}

/// With exactly one occurrence, the edit splices `new` in place of it and
/// leaves the text around it as it was.
pub proof fn law_unique_edit_splices(s: Seq<char>, p: Seq<char>, new: Seq<char>)
    requires
        p.len() > 0,
        count_matches(s, p) == 1,
    ensures
        exists|j: int|
            occurs_at(s, p, j) && replace_all(s, p, new) == s.take(j) + new + s.skip(
                j + p.len(),
            ),
{
    let j = lemma_one_match_splices(s, p, new, 0);
    assert(s.subrange(0, j) == s.take(j));
}

/// Text without an occurrence comes back unchanged.
pub proof fn law_no_match_is_identity(s: Seq<char>, p: Seq<char>, new: Seq<char>)
    requires
        p.len() > 0,
        count_matches(s, p) == 0,
    ensures
        replace_all(s, p, new) == s,
{
    lemma_no_match_keeps(s, p, new, 0);
    assert(s.skip(0) == s);
}

/// The rows whose mark is `m1` or `m2`, in order, without their mark: one
/// side of a diff.
pub open spec fn side(rows: Seq<Seq<char>>, m1: char, m2: char) -> Seq<Seq<char>>
    decreases rows.len(),
{
    if rows.len() == 0 {
        Seq::empty()
    } else {
        let r = rows.last();
        let prev = side(rows.drop_last(), m1, m2);
        if r.len() > 0 && (r[0] == m1 || r[0] == m2) {
            prev.push(r.drop_first())
        } else {
            prev
        }
    }
}

proof fn lemma_side_concat(x: Seq<Seq<char>>, y: Seq<Seq<char>>, m1: char, m2: char)
    ensures
        side(x + y, m1, m2) == side(x, m1, m2) + side(y, m1, m2),
    decreases y.len(),
{
    if y.len() == 0 {
        assert(x + y == x);
        assert(side(x, m1, m2) + Seq::<Seq<char>>::empty() == side(x, m1, m2));
    } else {
        lemma_side_concat(x, y.drop_last(), m1, m2);
        assert((x + y).drop_last() == x + y.drop_last());
        assert((x + y).last() == y.last());
    }
}

proof fn lemma_side_prefixed(m: char, ls: Seq<Seq<char>>, m1: char, m2: char)
    ensures
        (m == m1 || m == m2) ==> side(prefixed(m, ls), m1, m2) == ls,
        !(m == m1 || m == m2) ==> side(prefixed(m, ls), m1, m2) == Seq::<Seq<char>>::empty(),
    decreases ls.len(),
{
    if ls.len() > 0 {
        lemma_side_prefixed(m, ls.drop_last(), m1, m2);
        assert(prefixed(m, ls).drop_last() =~= prefixed(m, ls.drop_last()));
        let r = prefixed(m, ls).last();
        assert(r == seq![m] + ls.last());
        assert(r[0] == m);
        assert(r.drop_first() =~= ls.last());
        assert(ls.drop_last().push(ls.last()) == ls);
    } else {
        assert(prefixed(m, ls) =~= Seq::<Seq<char>>::empty());
    }
}

/// The diff is one unified hunk: for the span that [`change_span`] gives,
/// its header is `@@ -s+1,eb-s +s+1,ea-s @@`, where `s` is the span's
/// start less up to three context lines and `eb`, `ea` its ends plus up to
/// three; the context and removed rows are exactly the old lines
/// `s..eb` in order, and the context and added rows exactly the new lines
/// `s..ea`.
#[verifier::rlimit(40)]
pub proof fn law_diff_is_one_hunk(b: Seq<Seq<char>>, a: Seq<Seq<char>>)
    ensures
        ({
            let (f, lb, la) = change_span(b, a);
            let rows = diff_rows(b, a, f, lb, la);
            let s: nat = if f >= 3 {
                (f - 3) as nat
            } else {
                0
            };
            let eb = ctx_end(lb, b.len());
            let ea = ctx_end(la, a.len());
            &&& s <= eb <= b.len()
            &&& s <= ea <= a.len()
            &&& rows[0] == diff_header(s, (eb - s) as nat, (ea - s) as nat)
            &&& side(rows.drop_first(), ' ', '-') == b.subrange(s as int, eb as int)
            &&& side(rows.drop_first(), ' ', '+') == a.subrange(s as int, ea as int)
        }),
{
    law_change_span_brackets_the_change(b, a);
    let (f, lb, la) = change_span(b, a);
    let s: nat = if f >= 3 {
        (f - 3) as nat
    } else {
        0
    };
    let eb = ctx_end(lb, b.len());
    let ea = ctx_end(la, a.len());
    let p1 = b.subrange(s as int, f as int);
    let p2 = b.subrange(f as int, lb as int);
    let p3 = a.subrange(f as int, la as int);
    let p4 = b.subrange(lb as int, eb as int);
    let rows = diff_rows(b, a, f, lb, la);
    let body = prefixed(' ', p1) + prefixed('-', p2) + prefixed('+', p3) + prefixed(' ', p4);
    assert(rows.drop_first() =~= body);
    lemma_side_concat(prefixed(' ', p1), prefixed('-', p2), ' ', '-');
    lemma_side_concat(prefixed(' ', p1) + prefixed('-', p2), prefixed('+', p3), ' ', '-');
    lemma_side_concat(
        prefixed(' ', p1) + prefixed('-', p2) + prefixed('+', p3),
        prefixed(' ', p4),
        ' ',
        '-',
    );
    lemma_side_concat(prefixed(' ', p1), prefixed('-', p2), ' ', '+');
    lemma_side_concat(prefixed(' ', p1) + prefixed('-', p2), prefixed('+', p3), ' ', '+');
    lemma_side_concat(
        prefixed(' ', p1) + prefixed('-', p2) + prefixed('+', p3),
        prefixed(' ', p4),
        ' ',
        '+',
    );
    lemma_side_prefixed(' ', p1, ' ', '-');
    lemma_side_prefixed('-', p2, ' ', '-');
    lemma_side_prefixed('+', p3, ' ', '-');
    lemma_side_prefixed(' ', p4, ' ', '-');
    lemma_side_prefixed(' ', p1, ' ', '+');
    lemma_side_prefixed('-', p2, ' ', '+');
    lemma_side_prefixed('+', p3, ' ', '+');
    lemma_side_prefixed(' ', p4, ' ', '+');
    assert(p1 + p2 + p4 =~= b.subrange(s as int, eb as int));
    // The common prefix and suffix give the new side its context.
    assert(b.take(f as int) == a.take(f as int));
    assert(b.skip(lb as int) == a.skip(la as int));
    assert(b.skip(lb as int).len() == b.len() - lb);
    assert(a.skip(la as int).len() == a.len() - la);
    assert(b.len() - lb == a.len() - la);
    assert(ea - la == eb - lb);
    assert(p1 =~= a.subrange(s as int, f as int)) by {
        assert forall|k: int| 0 <= k < p1.len() implies p1[k] == a.subrange(s as int, f as int)[k] by {
            assert(b.take(f as int)[s + k] == a.take(f as int)[s + k]);
        }
    }
    assert(p4 =~= a.subrange(la as int, ea as int)) by {
        assert forall|k: int| 0 <= k < p4.len() implies p4[k] == a.subrange(la as int, ea as int)[k] by {
            assert(b.skip(lb as int)[k] == a.skip(la as int)[k]);
        }
    }
    assert(p1 + p3 + p4 =~= a.subrange(s as int, ea as int));
    assert(Seq::<Seq<char>>::empty() + p2 == p2);
}

/// The reported lines are lines of the new text and hold the whole
/// change: before `start` the old and new texts have the same lines, and
/// after `end` the new text's lines are the old text's last lines
/// unchanged. So `start..=end` (1-based, in the new text) is where the
/// new lines differ, and `applied` counts the replacements.
pub proof fn law_edit_span_is_in_the_new_text(
    path: Seq<char>,
    before: Seq<char>,
    old: Seq<char>,
    new: Seq<char>,
    all: bool,
)
    requires
        spec_apply(path, before, old, new, all) is Ok,
    ensures
        ({
            let (h, updated) = spec_apply(path, before, old, new, all)->Ok_0;
            let b = lines(before);
            let a = lines(updated);
            let tail = a.len() - h.end;
            &&& updated == replace_all(before, old, new)
            &&& 1 <= h.start
            &&& h.start - 1 <= h.end <= a.len()
            &&& tail <= b.len() - (h.start - 1)
            &&& b.take(h.start - 1) == a.take(h.start - 1)
            &&& a.skip(h.end as int) == b.skip(b.len() - tail)
            &&& h.applied == count_matches(before, old)
            &&& h.path == path
        }),
{
    let (h, updated) = spec_apply(path, before, old, new, all)->Ok_0;
    let b = lines(before);
    let a = lines(updated);
    law_change_span_brackets_the_change(b, a);
    let (f, lb, la) = change_span(b, a);
    assert(b.skip(lb as int).len() == b.len() - lb);
    assert(a.skip(la as int).len() == a.len() - la);
}

} // verus!
