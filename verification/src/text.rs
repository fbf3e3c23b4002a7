//! Character-level helpers on strings, with their specifications.
//!
//! Strings are viewed as sequences of `char` (`s@`); the helpers here
//! operate on `char` slices and state their results over those views.

use vstd::prelude::*;
use vstd::std_specs::iter::IteratorSpec;

verus! {

broadcast use vstd::string::group_string_axioms;

// ---------------------------------------------------------------------
// Specifications
// ---------------------------------------------------------------------

/// `p` is a prefix of `s`.
pub open spec fn starts_with(s: Seq<char>, p: Seq<char>) -> bool {
    p.len() <= s.len() && s.take(p.len() as int) == p
}

/// `p` occurs in `s` at position `i`.
pub open spec fn occurs_at(s: Seq<char>, p: Seq<char>, i: int) -> bool {
    0 <= i && i + p.len() <= s.len() && s.subrange(i, i + p.len()) == p
}

/// `p` occurs somewhere in `s`.
pub open spec fn contains_seq(s: Seq<char>, p: Seq<char>) -> bool {
    exists|i: int| occurs_at(s, p, i)
}

/// Index of the first occurrence of `c` in `s`.
pub open spec fn first_index(s: Seq<char>, c: char) -> Option<int>
    decreases s.len(),
{
    if s.len() == 0 {
        None
    } else if s[0] == c {
        Some(0)
    } else {
        match first_index(s.drop_first(), c) {
            Some(i) => Some(i + 1),
            None => None,
        }
    }
}

/// The part of `s` before the first `c` (all of `s` when there is none).
pub open spec fn before_first(s: Seq<char>, c: char) -> Seq<char> {
    match first_index(s, c) {
        Some(i) => s.take(i),
        None => s,
    }
}

/// The part of `s` after the first `c`, when `s` holds a `c`.
pub open spec fn after_first(s: Seq<char>, c: char) -> Option<Seq<char>> {
    match first_index(s, c) {
        Some(i) => Some(s.skip(i + 1)),
        None => None,
    }
}

/// `parts` joined with `sep` between consecutive parts.
pub open spec fn join(parts: Seq<Seq<char>>, sep: Seq<char>) -> Seq<char>
    decreases parts.len(),
{
    if parts.len() == 0 {
        Seq::empty()
    } else if parts.len() == 1 {
        parts[0]
    } else {
        join(parts.drop_last(), sep) + sep + parts.last()
    }
}

/// The ASCII digit for `d < 10`.
pub open spec fn digit_char(d: nat) -> char {
    if d == 0 {
        '0'
    } else if d == 1 {
        '1'
    } else if d == 2 {
        '2'
    } else if d == 3 {
        '3'
    } else if d == 4 {
        '4'
    } else if d == 5 {
        '5'
    } else if d == 6 {
        '6'
    } else if d == 7 {
        '7'
    } else if d == 8 {
        '8'
    } else {
        '9'
    }
}

/// Decimal digits of `n` with no leading zeros (`"0"` for zero).
pub open spec fn dec(n: nat) -> Seq<char>
    decreases n,
{
    if n < 10 {
        seq![digit_char(n)]
    } else {
        dec(n / 10).push(digit_char(n % 10))
    }
}

/// `count` copies of `c`.
pub open spec fn repeat_char(c: char, count: nat) -> Seq<char> {
    Seq::new(count, |_i: int| c)
}

/// `s` right-aligned in a field of `width` characters (padded with spaces).
pub open spec fn pad_left(s: Seq<char>, width: nat) -> Seq<char> {
    if s.len() >= width {
        s
    } else {
        repeat_char(' ', (width - s.len()) as nat) + s
    }
}

/// Unicode `White_Space`, the set that `char::is_whitespace` tests.
pub open spec fn is_ws(c: char) -> bool {
    let u = c as u32;
    (0x09 <= u && u <= 0x0d) || u == 0x20 || u == 0x85 || u == 0xa0 || u == 0x1680 || (0x2000 <= u
        && u <= 0x200a) || u == 0x2028 || u == 0x2029 || u == 0x202f || u == 0x205f || u == 0x3000
}

/// `s` without leading whitespace.
pub open spec fn trim_start(s: Seq<char>) -> Seq<char>
    decreases s.len(),
{
    if s.len() > 0 && is_ws(s[0]) {
        trim_start(s.drop_first())
    } else {
        s
    }
}

/// `s` without trailing whitespace.
pub open spec fn trim_end(s: Seq<char>) -> Seq<char>
    decreases s.len(),
{
    if s.len() > 0 && is_ws(s.last()) {
        trim_end(s.drop_last())
    } else {
        s
    }
}

/// `s` without leading and trailing whitespace (`str::trim`).
pub open spec fn trim(s: Seq<char>) -> Seq<char> {
    trim_end(trim_start(s))
}

/// ASCII lower-casing of one character.
pub open spec fn lower_char(c: char) -> char {
    if 'A' <= c && c <= 'Z' {
        ((c as u32) + 32) as char
    } else {
        c
    }
}

/// ASCII lower-casing of a string (`str::to_ascii_lowercase`).
pub open spec fn ascii_lower(s: Seq<char>) -> Seq<char> {
    Seq::new(s.len(), |i: int| lower_char(s[i]))
}

// ---------------------------------------------------------------------
// Trusted std calls
// ---------------------------------------------------------------------

/// `String::push`: appends one character to the string.
#[verifier::external_body]
pub fn push_char(s: &mut String, c: char)
    ensures
        final(s)@ == old(s)@.push(c),
{
    s.push(c);
}

/// `String::from_utf8`: the decoded text exactly when `bytes` is valid
/// UTF-8 (std's validity: no overlong forms, no surrogates, nothing past
/// U+10FFFF), else `None`.
#[verifier::external_body]
pub fn utf8_text(bytes: Vec<u8>) -> (r: Option<String>)
    ensures
        match r {
            Some(s) => vstd::utf8::valid_utf8(bytes@) && s@ == vstd::utf8::decode_utf8(bytes@),
            None => !vstd::utf8::valid_utf8(bytes@),
        },
{
    match String::from_utf8(bytes) {
        Ok(s) => Some(s),
        Err(_) => None,
    }
}

/// `std::str::from_utf8`: succeeds exactly when `bytes` is valid UTF-8.
#[verifier::external_body]
pub fn is_valid_utf8(bytes: &[u8]) -> (r: bool)
    ensures
        r == vstd::utf8::valid_utf8(bytes@),
{
    match std::str::from_utf8(bytes) {
        Ok(_) => true,
        Err(_) => false,
    }
}

// ---------------------------------------------------------------------
// Executable helpers
// ---------------------------------------------------------------------

/// Whether `c` is Unicode `White_Space` (what `char::is_whitespace`
/// tests), by its code point.
pub fn char_is_whitespace(c: char) -> (r: bool)
    ensures
        r == is_ws(c),
{
    let u = c as u32;
    (0x09 <= u && u <= 0x0d) || u == 0x20 || u == 0x85 || u == 0xa0 || u == 0x1680 || (0x2000 <= u
        && u <= 0x200a) || u == 0x2028 || u == 0x2029 || u == 0x202f || u == 0x205f || u == 0x3000
}

/// The characters of `s`, in order.
pub fn chars_of(s: &str) -> (r: Vec<char>)
    ensures
        r@ == s@,
{
    let mut out: Vec<char> = Vec::new();
    let mut it = s.chars();
    loop
        invariant
            it.obeys_prophetic_iter_laws(),
            out@ + it.remaining() == s@,
            it.decrease() is Some,
        ensures
            out@ == s@,
        decreases it.decrease()->0,
    {
        match it.next() {
            Some(c) => {
                out.push(c);
            },
            None => {
                break;
            },
        }
    }
    out
}

/// A `String` holding exactly the characters `cs`.
pub fn string_from(cs: &[char]) -> (r: String)
    ensures
        r@ == cs@,
{
    let mut s = String::new();
    let mut i: usize = 0;
    while i < cs.len()
        invariant
            i <= cs.len(),
            s@ == cs@.take(i as int),
        decreases cs.len() - i,
    {
        push_char(&mut s, cs[i]);
        assert(cs@.take(i as int).push(cs@[i as int]) == cs@.take(i + 1));
        i = i + 1;
    }
    assert(cs@.take(cs.len() as int) == cs@);
    s
}

/// Appends the characters `cs` to `out`.
pub fn push_chars(out: &mut Vec<char>, cs: &[char])
    ensures
        final(out)@ == old(out)@ + cs@,
{
    let mut i: usize = 0;
    while i < cs.len()
        invariant
            i <= cs.len(),
            out@ == old(out)@ + cs@.take(i as int),
        decreases cs.len() - i,
    {
        out.push(cs[i]);
        assert(cs@.take(i as int).push(cs@[i as int]) == cs@.take(i + 1));
        i = i + 1;
    }
    assert(cs@.take(cs.len() as int) == cs@);
}

/// Appends the characters of `s` to `out`.
pub fn push_str_chars(out: &mut Vec<char>, s: &str)
    ensures
        final(out)@ == old(out)@ + s@,
{
    let cs = chars_of(s);
    push_chars(out, cs.as_slice());
}

/// `a` and `b` hold the same characters.
pub fn chars_eq(a: &[char], b: &[char]) -> (r: bool)
    ensures
        r == (a@ == b@),
{
    if a.len() != b.len() {
        return false;
    }
    let mut i: usize = 0;
    while i < a.len()
        invariant
            i <= a.len(),
            a.len() == b.len(),
            a@.take(i as int) == b@.take(i as int),
        decreases a.len() - i,
    {
        if a[i] != b[i] {
            assert(a@[i as int] != b@[i as int]);
            return false;
        }
        assert(a@.take(i + 1) == a@.take(i as int).push(a@[i as int]));
        assert(b@.take(i + 1) == b@.take(i as int).push(b@[i as int]));
        i = i + 1;
    }
    assert(a@ == a@.take(a.len() as int));
    assert(b@ == b@.take(b.len() as int));
    true
}

/// `a` holds exactly the characters of the literal `lit`.
pub fn eq_lit(a: &[char], lit: &str) -> (r: bool)
    ensures
        r == (a@ == lit@),
{
    let l = chars_of(lit);
    chars_eq(a, l.as_slice())
}

/// `s` and `t` hold the same characters.
pub fn str_eq(s: &str, t: &str) -> (r: bool)
    ensures
        r == (s@ == t@),
{
    let a = chars_of(s);
    let b = chars_of(t);
    chars_eq(a.as_slice(), b.as_slice())
}

/// `p` is a prefix of `s`.
pub fn chars_starts_with(s: &[char], p: &[char]) -> (r: bool)
    ensures
        r == starts_with(s@, p@),
{
    if p.len() > s.len() {
        return false;
    }
    let mut i: usize = 0;
    while i < p.len()
        invariant
            i <= p.len(),
            p.len() <= s.len(),
            s@.take(i as int) == p@.take(i as int),
        decreases p.len() - i,
    {
        if s[i] != p[i] {
            assert(s@.take(p.len() as int)[i as int] != p@[i as int]);
            return false;
        }
        assert(s@.take(i + 1) == s@.take(i as int).push(s@[i as int]));
        assert(p@.take(i + 1) == p@.take(i as int).push(p@[i as int]));
        i = i + 1;
    }
    assert(p@ == p@.take(p.len() as int));
    true
}

/// The literal `lit` is a prefix of `s`.
pub fn starts_with_lit(s: &[char], lit: &str) -> (r: bool)
    ensures
        r == starts_with(s@, lit@),
{
    let l = chars_of(lit);
    chars_starts_with(s, l.as_slice())
}

/// `p` occurs at position `i` of `s`.
pub fn chars_occurs_at(s: &[char], p: &[char], i: usize) -> (r: bool)
    ensures
        r == occurs_at(s@, p@, i as int),
{
    if i > s.len() || p.len() > s.len() - i {
        return false;
    }
    let mut k: usize = 0;
    while k < p.len()
        invariant
            k <= p.len(),
            i + p.len() <= s.len(),
            s@.subrange(i as int, i + k) == p@.take(k as int),
        decreases p.len() - k,
    {
        if s[i + k] != p[k] {
            assert(s@.subrange(i as int, i + p.len())[k as int] != p@[k as int]);
            return false;
        }
        assert(s@.subrange(i as int, i + k + 1) == s@.subrange(i as int, i + k).push(s@[i + k]));
        assert(p@.take(k + 1) == p@.take(k as int).push(p@[k as int]));
        k = k + 1;
    }
    assert(p@ == p@.take(p.len() as int));
    true
}

/// `p` occurs somewhere in `s`.
pub fn chars_contains(s: &[char], p: &[char]) -> (r: bool)
    ensures
        r == contains_seq(s@, p@),
{
    if p.len() > s.len() {
        assert forall|i: int| !occurs_at(s@, p@, i) by {}
        return false;
    }
    let last = s.len() - p.len();
    let mut i: usize = 0;
    loop
        invariant
            p.len() <= s.len(),
            last == s.len() - p.len(),
            i <= last,
            forall|j: int| 0 <= j < i ==> !occurs_at(s@, p@, j),
        ensures
            forall|j: int| 0 <= j <= last ==> !occurs_at(s@, p@, j),
        decreases last - i,
    {
        if chars_occurs_at(s, p, i) {
            return true;
        }
        if i == last {
            break;
        }
        i = i + 1;
    }
    assert forall|j: int| !occurs_at(s@, p@, j) by {
        if 0 <= j && j + p.len() <= s.len() {
            assert(j <= last);
        }
    }
    false
}

/// The literal `lit` occurs somewhere in `s`.
pub fn contains_lit(s: &[char], lit: &str) -> (r: bool)
    ensures
        r == contains_seq(s@, lit@),
{
    let l = chars_of(lit);
    chars_contains(s, l.as_slice())
}

/// `c` occurs in `s`.
pub fn has_char(s: &[char], c: char) -> (r: bool)
    ensures
        r == s@.contains(c),
{
    let mut i: usize = 0;
    while i < s.len()
        invariant
            i <= s.len(),
            forall|j: int| 0 <= j < i ==> s@[j] != c,
        decreases s.len() - i,
    {
        if s[i] == c {
            return true;
        }
        i = i + 1;
    }
    false
}

/// Proof that `first_index` finds the first occurrence.
pub proof fn lemma_first_index(s: Seq<char>, c: char)
    ensures
        match first_index(s, c) {
            Some(i) => 0 <= i < s.len() && s[i] == c && forall|j: int| 0 <= j < i ==> s[j] != c,
            None => forall|j: int| 0 <= j < s.len() ==> s[j] != c,
        },
    decreases s.len(),
{
    if s.len() > 0 && s[0] != c {
        lemma_first_index(s.drop_first(), c);
        match first_index(s.drop_first(), c) {
            Some(i) => {
                assert forall|j: int| 0 <= j < i + 1 implies s[j] != c by {
                    if j > 0 {
                        assert(s[j] == s.drop_first()[j - 1]);
                    }
                }
            },
            None => {
                assert forall|j: int| 0 <= j < s.len() implies s[j] != c by {
                    if j > 0 {
                        assert(s[j] == s.drop_first()[j - 1]);
                    }
                }
            },
        }
    }
}

/// Position of the first `c` in `s`.
pub fn find_char(s: &[char], c: char) -> (r: Option<usize>)
    ensures
        match r {
            Some(i) => first_index(s@, c) == Some(i as int) && i < s.len() && s@[i as int] == c,
            None => first_index(s@, c) is None,
        },
{
    proof {
        lemma_first_index(s@, c);
    }
    let mut i: usize = 0;
    while i < s.len()
        invariant
            i <= s.len(),
            forall|j: int| 0 <= j < i ==> s@[j] != c,
            match first_index(s@, c) {
                Some(k) => 0 <= k < s@.len() && s@[k] == c && forall|j: int|
                    0 <= j < k ==> s@[j] != c,
                None => forall|j: int| 0 <= j < s@.len() ==> s@[j] != c,
            },
        decreases s.len() - i,
    {
        if s[i] == c {
            return Some(i);
        }
        i = i + 1;
    }
    None
}

/// `s[from..to]` as a vector.
pub fn sub_chars(s: &[char], from: usize, to: usize) -> (r: Vec<char>)
    requires
        from <= to <= s.len(),
    ensures
        r@ == s@.subrange(from as int, to as int),
{
    let mut out: Vec<char> = Vec::new();
    let mut i: usize = from;
    while i < to
        invariant
            from <= i <= to <= s.len(),
            out@ == s@.subrange(from as int, i as int),
        decreases to - i,
    {
        out.push(s[i]);
        assert(s@.subrange(from as int, i + 1) == s@.subrange(from as int, i as int).push(
            s@[i as int],
        ));
        i = i + 1;
    }
    out
}

/// Decimal digits of `n`.
pub fn dec_chars(n: u64) -> (r: Vec<char>)
    ensures
        r@ == dec(n as nat),
    decreases n,
{
    if n < 10 {
        let c = digit(n);
        let mut v: Vec<char> = Vec::new();
        v.push(c);
        v
    } else {
        let mut v = dec_chars(n / 10);
        let c = digit(n % 10);
        v.push(c);
        v
    }
}

/// The ASCII digit for `d < 10`.
pub fn digit(d: u64) -> (c: char)
    requires
        d < 10,
    ensures
        c == digit_char(d as nat),
{
    if d == 0 {
        '0'
    } else if d == 1 {
        '1'
    } else if d == 2 {
        '2'
    } else if d == 3 {
        '3'
    } else if d == 4 {
        '4'
    } else if d == 5 {
        '5'
    } else if d == 6 {
        '6'
    } else if d == 7 {
        '7'
    } else if d == 8 {
        '8'
    } else {
        '9'
    }
}

/// Appends `s` right-aligned in `width` characters to `out`.
pub fn push_padded(out: &mut Vec<char>, s: &[char], width: usize)
    ensures
        final(out)@ == old(out)@ + pad_left(s@, width as nat),
{
    if s.len() < width {
        let mut k: usize = 0;
        let pad = width - s.len();
        while k < pad
            invariant
                k <= pad,
                pad == width - s.len(),
                out@ == old(out)@ + repeat_char(' ', k as nat),
            decreases pad - k,
        {
            out.push(' ');
            assert(repeat_char(' ', k as nat).push(' ') == repeat_char(' ', (k + 1) as nat));
            k = k + 1;
        }
        push_chars(out, s);
        assert(old(out)@ + repeat_char(' ', pad as nat) + s@ == old(out)@ + (repeat_char(
            ' ',
            pad as nat,
        ) + s@));
    } else {
        push_chars(out, s);
    }
}

/// `str::trim` on a character slice.
pub fn trim_chars(s: &[char]) -> (r: Vec<char>)
    ensures
        r@ == trim(s@),
{
    let mut lo: usize = 0;
    assert(s@.skip(0) == s@);
    while lo < s.len() && char_is_whitespace(s[lo])
        invariant
            lo <= s.len(),
            trim_start(s@) == trim_start(s@.skip(lo as int)),
        decreases s.len() - lo,
    {
        assert(s@.skip(lo as int).drop_first() == s@.skip(lo + 1));
        lo = lo + 1;
    }
    let mut hi: usize = s.len();
    let ghost t = s@.skip(lo as int);
    assert(trim_start(s@) == t);
    while hi > lo && char_is_whitespace(s[hi - 1])
        invariant
            lo <= hi <= s.len(),
            t == s@.skip(lo as int),
            trim_end(t) == trim_end(s@.subrange(lo as int, hi as int)),
        decreases hi,
    {
        assert(s@.subrange(lo as int, hi as int).drop_last() == s@.subrange(lo as int, hi - 1));
        hi = hi - 1;
    }
    assert(s@.skip(lo as int) == s@.subrange(lo as int, s.len() as int));
    sub_chars(s, lo, hi)
}

/// `str::to_ascii_lowercase` on a character slice.
pub fn ascii_lower_chars(s: &[char]) -> (r: Vec<char>)
    ensures
        r@ == ascii_lower(s@),
{
    let mut out: Vec<char> = Vec::new();
    let mut i: usize = 0;
    while i < s.len()
        invariant
            i <= s.len(),
            out@.len() == i,
            forall|j: int| 0 <= j < i ==> out@[j] == lower_char(s@[j]),
        decreases s.len() - i,
    {
        let c = s[i];
        let l = if 'A' <= c && c <= 'Z' {
            ((c as u8) + 32) as char
        } else {
            c
        };
        out.push(l);
        i = i + 1;
    }
    assert(out@ == ascii_lower(s@));
    out
}

/// Appends `parts` joined with `sep` to `out`.
pub fn push_join(out: &mut Vec<char>, parts: &[Vec<char>], sep: &[char])
    ensures
        final(out)@ == old(out)@ + join(parts@.map_values(|v: Vec<char>| v@), sep@),
{
    let ghost pv = parts@.map_values(|v: Vec<char>| v@);
    let mut i: usize = 0;
    while i < parts.len()
        invariant
            i <= parts.len(),
            pv == parts@.map_values(|v: Vec<char>| v@),
            out@ == old(out)@ + join(pv.take(i as int), sep@),
        decreases parts.len() - i,
    {
        assert(pv.take(i + 1).drop_last() == pv.take(i as int));
        assert(pv.take(i + 1).last() == parts@[i as int]@);
        if i > 0 {
            push_chars(out, sep);
        }
        push_chars(out, parts[i].as_slice());
        proof {
            if i == 0 {
                assert(pv.take(1).len() == 1);
                assert(old(out)@ + join(pv.take(0), sep@) + parts@[i as int]@ == old(out)@ + join(
                    pv.take(1),
                    sep@,
                ));
            } else {
                assert(old(out)@ + join(pv.take(i as int), sep@) + sep@ + parts@[i as int]@
                    == old(out)@ + join(pv.take(i + 1), sep@));
            }
        }
        i = i + 1;
    }
    assert(pv.take(parts.len() as int) == pv);
}

// ---------------------------------------------------------------------
// UTF-8 lengths
// ---------------------------------------------------------------------

/// Bytes in the UTF-8 encoding of `c`.
pub open spec fn char_width(c: char) -> nat {
    let u = c as u32;
    if u < 0x80 {
        1
    } else if u < 0x800 {
        2
    } else if u < 0x10000 {
        3
    } else {
        4
    }
}

/// Bytes in the UTF-8 encoding of `s` (what `str::len` returns).
pub open spec fn utf8_len(s: Seq<char>) -> nat {
    vstd::utf8::encode_utf8(s).len()
}

/// Encoding a concatenation concatenates the encodings.
pub proof fn lemma_encode_concat(a: Seq<char>, b: Seq<char>)
    ensures
        vstd::utf8::encode_utf8(a + b) == vstd::utf8::encode_utf8(a) + vstd::utf8::encode_utf8(b),
    decreases a.len(),
{
    if a.len() > 0 {
        lemma_encode_concat(a.drop_first(), b);
        assert((a + b).drop_first() == a.drop_first() + b);
    } else {
        assert(a + b == b);
    }
}

/// One character adds its width.
pub proof fn lemma_utf8_len_push(s: Seq<char>, c: char)
    ensures
        utf8_len(s.push(c)) == utf8_len(s) + char_width(c),
{
    lemma_encode_concat(s, seq![c]);
    assert(s.push(c) == s + seq![c]);
    vstd::utf8::char_is_scalar(c);
    assert(seq![c].drop_first() == Seq::<char>::empty());
    assert(vstd::utf8::encode_utf8(Seq::<char>::empty()) == Seq::<u8>::empty());
    assert(vstd::utf8::encode_utf8(seq![c]) == vstd::utf8::encode_scalar(c as u32) + Seq::<
        u8,
    >::empty());
    assert(vstd::utf8::encode_scalar(c as u32) + Seq::<u8>::empty() == vstd::utf8::encode_scalar(
        c as u32,
    ));
}

/// Prefix lengths grow one character at a time.
pub proof fn lemma_utf8_len_take(s: Seq<char>, k: int)
    requires
        0 <= k < s.len(),
    ensures
        utf8_len(s.take(k + 1)) == utf8_len(s.take(k)) + char_width(s[k]),
{
    assert(s.take(k + 1) == s.take(k).push(s[k]));
    lemma_utf8_len_push(s.take(k), s[k]);
}

/// An ASCII-only string has one byte per character.
pub proof fn lemma_utf8_len_ascii(s: Seq<char>)
    requires
        forall|i: int| 0 <= i < s.len() ==> (s[i] as u32) < 0x80,
    ensures
        utf8_len(s) == s.len(),
    decreases s.len(),
{
    if s.len() > 0 {
        lemma_utf8_len_ascii(s.drop_last());
        lemma_utf8_len_push(s.drop_last(), s.last());
        assert(s.drop_last().push(s.last()) == s);
    } else {
        assert(vstd::utf8::encode_utf8(s) == Seq::<u8>::empty());
    }
}

/// A string has no more characters than bytes.
pub proof fn lemma_chars_le_bytes(s: Seq<char>)
    ensures
        s.len() <= utf8_len(s),
    decreases s.len(),
{
    if s.len() > 0 {
        lemma_chars_le_bytes(s.drop_last());
        lemma_utf8_len_push(s.drop_last(), s.last());
        assert(s.drop_last().push(s.last()) == s);
    } else {
        assert(vstd::utf8::encode_utf8(s) == Seq::<u8>::empty());
    }
}

/// Decoding valid UTF-8 gives no more characters than there are bytes.
pub proof fn lemma_decode_len_le(b: Seq<u8>)
    requires
        vstd::utf8::valid_utf8(b),
    ensures
        vstd::utf8::decode_utf8(b).len() <= b.len(),
{
    vstd::utf8::decode_utf8_encode_utf8(b);
    lemma_chars_le_bytes(vstd::utf8::decode_utf8(b));
}

/// Byte width of one character.
pub fn char_width_of(c: char) -> (r: usize)
    ensures
        r == char_width(c),
        1 <= r <= 4,
{
    let u = c as u32;
    if u < 0x80 {
        1
    } else if u < 0x800 {
        2
    } else if u < 0x10000 {
        3
    } else {
        4
    }
}

/// Number of leading characters of `s` whose encoding fits in `max` bytes.
pub open spec fn fit_prefix(s: Seq<char>, max: nat) -> nat
    decreases s.len(),
{
    if s.len() == 0 {
        0
    } else if char_width(s[0]) > max {
        0
    } else {
        1 + fit_prefix(s.drop_first(), (max - char_width(s[0])) as nat)
    }
}

/// Byte length of `s` when it is at most `cap`, else `None`.
pub fn utf8_len_upto(s: &[char], cap: usize) -> (r: Option<usize>)
    requires
        cap < usize::MAX - 4,
    ensures
        match r {
            Some(n) => n == utf8_len(s@) && n <= cap,
            None => utf8_len(s@) > cap,
        },
{
    let mut total: usize = 0;
    let mut i: usize = 0;
    assert(s@.take(0) == Seq::<char>::empty());
    assert(vstd::utf8::encode_utf8(Seq::<char>::empty()) == Seq::<u8>::empty());
    while i < s.len()
        invariant
            i <= s.len(),
            cap < usize::MAX - 4,
            total <= cap,
            total == utf8_len(s@.take(i as int)),
        decreases s.len() - i,
    {
        proof {
            lemma_utf8_len_take(s@, i as int);
        }
        let w = char_width_of(s[i]);
        if total + w > cap {
            proof {
                lemma_utf8_len_prefix_le(s@, i + 1);
            }
            return None;
        }
        total = total + w;
        i = i + 1;
    }
    assert(s@.take(s.len() as int) == s@);
    Some(total)
}

/// A prefix is no longer than the whole.
pub proof fn lemma_utf8_len_prefix_le(s: Seq<char>, k: int)
    requires
        0 <= k <= s.len(),
    ensures
        utf8_len(s.take(k)) <= utf8_len(s),
    decreases s.len() - k,
{
    if k < s.len() {
        lemma_utf8_len_take(s, k);
        lemma_utf8_len_prefix_le(s, k + 1);
    } else {
        assert(s.take(k) == s);
    }
}

// ---------------------------------------------------------------------
// Lines
// ---------------------------------------------------------------------

/// `l` without one trailing carriage return.
pub open spec fn strip_cr(l: Seq<char>) -> Seq<char> {
    if l.len() > 0 && l.last() == '\r' {
        l.drop_last()
    } else {
        l
    }
}

/// The lines of `s`, as `str::lines` yields them: split after each `\n`,
/// the `\n` (and a `\r` before it) removed, no empty line after a final
/// `\n`.
pub open spec fn lines(s: Seq<char>) -> Seq<Seq<char>>
    decreases s.len(),
{
    if s.len() == 0 {
        Seq::empty()
    } else {
        match first_index(s, '\n') {
            Some(i) => if 0 <= i < s.len() {
                seq![strip_cr(s.take(i))] + lines(s.skip(i + 1))
            } else {
                Seq::empty()
            },
            None => seq![s],
        }
    }
}

/// The lines of `s` (`str::lines`).
pub fn split_lines(s: &[char]) -> (r: Vec<Vec<char>>)
    ensures
        r@.map_values(|v: Vec<char>| v@) == lines(s@),
{
    let mut out: Vec<Vec<char>> = Vec::new();
    let mut i: usize = 0;
    assert(s@.skip(0) == s@);
    while i < s.len()
        invariant
            i <= s.len(),
            out@.map_values(|v: Vec<char>| v@) + lines(s@.skip(i as int)) == lines(s@),
        decreases s.len() - i,
    {
        let ghost rest = s@.skip(i as int);
        proof {
            lemma_first_index(rest, '\n');
        }
        let mut j: usize = i;
        while j < s.len() && s[j] != '\n'
            invariant
                i <= j <= s.len(),
                forall|k: int| i <= k < j ==> s@[k] != '\n',
            decreases s.len() - j,
        {
            j = j + 1;
        }
        let ghost before = out@.map_values(|v: Vec<char>| v@);
        if j < s.len() {
            let mut end = j;
            if end > i && s[end - 1] == '\r' {
                end = end - 1;
            }
            let line = sub_chars(s, i, end);
            proof {
                assert(rest[(j - i) as int] == '\n');
                match first_index(rest, '\n') {
                    Some(k) => {
                        if k < j - i {
                            assert(rest[k] == s@[i + k]);
                        }
                        if k > j - i {
                            assert(rest[(j - i) as int] == s@[j as int]);
                        }
                        assert(k == j - i);
                    },
                    None => {
                        assert(rest[(j - i) as int] == s@[j as int]);
                    },
                }
                assert(rest.take((j - i) as int) == s@.subrange(i as int, j as int));
                assert(line@ == strip_cr(rest.take((j - i) as int)));
                assert(rest.skip((j - i) + 1) == s@.skip(j + 1));
            }
            out.push(line);
            assert(out@.map_values(|v: Vec<char>| v@) == before.push(line@));
            i = j + 1;
        } else {
            let line = sub_chars(s, i, s.len());
            proof {
                match first_index(rest, '\n') {
                    Some(k) => {
                        assert(rest[k] == s@[i + k]);
                    },
                    None => {},
                }
                assert(line@ == rest);
                assert(s@.skip(s.len() as int) == Seq::<char>::empty());
            }
            out.push(line);
            assert(out@.map_values(|v: Vec<char>| v@) == before.push(line@));
            i = s.len();
        }
    }
    assert(s@.skip(s.len() as int) == Seq::<char>::empty());
    out
}

} // verus!
