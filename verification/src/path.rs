//! Lexical path handling (Unix separators), as `std::path` reads paths.
//!
//! A path is viewed as its components: an optional root, then `.`
//! (only as the first component of a relative path), `..`, and normal
//! names. Normalization drops `.`, lets `..` remove the previous name,
//! and keeps the rest.

use vstd::prelude::*;

use crate::text::{before_first, chars_eq, chars_of, join, lemma_first_index, push_chars, string_from, sub_chars};

verus! {

/// One path component (after the optional root).
pub enum SComp {
    /// `.` at the start of a relative path.
    Cur,
    /// `..`.
    Parent,
    /// Any other non-empty name.
    Normal(Seq<char>),
}

/// Executable path component.
pub enum Comp {
    /// `.` at the start of a relative path.
    Cur,
    /// `..`.
    Parent,
    /// Any other non-empty name.
    Normal(Vec<char>),
}

impl Comp {
    /// The component as a specification value.
    pub open spec fn sv(&self) -> SComp {
        match self {
            Comp::Cur => SComp::Cur,
            Comp::Parent => SComp::Parent,
            Comp::Normal(v) => SComp::Normal(v@),
        }
    }
}

/// The components of a sequence of executable components.
pub open spec fn comps_view(v: Seq<Comp>) -> Seq<SComp> {
    Seq::new(v.len(), |i: int| v[i].sv())
}

/// The path is absolute (starts at the root).
pub open spec fn is_abs(p: Seq<char>) -> bool {
    p.len() > 0 && p[0] == '/'
}

/// The component that the segment `seg` (no `/` in it) contributes.
pub open spec fn seg_comp(seg: Seq<char>, first: bool) -> Seq<SComp> {
    if seg.len() == 0 {
        Seq::empty()
    } else if seg == seq!['.'] {
        if first {
            seq![SComp::Cur]
        } else {
            Seq::empty()
        }
    } else if seg == seq!['.', '.'] {
        seq![SComp::Parent]
    } else {
        seq![SComp::Normal(seg)]
    }
}

/// Components of `p`; `first` says the next segment opens a relative path.
pub open spec fn comps_from(p: Seq<char>, first: bool) -> Seq<SComp>
    decreases p.len(),
{
    if p.len() == 0 {
        Seq::empty()
    } else if p[0] == '/' {
        comps_from(p.drop_first(), false)
    } else {
        let seg = before_first(p, '/');
        if seg.len() == 0 || seg.len() > p.len() {
            Seq::empty()
        } else {
            seg_comp(seg, first) + comps_from(p.skip(seg.len() as int), false)
        }
    }
}

/// The components of `p` after its optional root.
pub open spec fn comps(p: Seq<char>) -> Seq<SComp> {
    comps_from(p, !is_abs(p))
}

/// Names left after normalizing `cs`: `.` dropped, `..` pops a name.
pub open spec fn norm_parts(cs: Seq<SComp>) -> Seq<Seq<char>>
    decreases cs.len(),
{
    if cs.len() == 0 {
        Seq::empty()
    } else {
        let prev = norm_parts(cs.drop_last());
        match cs.last() {
            SComp::Cur => prev,
            SComp::Parent => if prev.len() > 0 {
                prev.drop_last()
            } else {
                prev
            },
            SComp::Normal(x) => prev.push(x),
        }
    }
}

/// The components of `raw` read against `root` (`root.join(raw)`).
pub open spec fn joined_comps(root: Seq<char>, raw: Seq<char>) -> Seq<SComp> {
    if is_abs(raw) {
        comps(raw)
    } else {
        comps(root) + comps(raw)
    }
}

/// The joined path is absolute.
pub open spec fn joined_abs(root: Seq<char>, raw: Seq<char>) -> bool {
    is_abs(raw) || is_abs(root)
}

/// Text of a normalized path.
pub open spec fn render_path(abs: bool, parts: Seq<Seq<char>>) -> Seq<char> {
    if abs {
        seq!['/'] + join(parts, seq!['/'])
    } else {
        join(parts, seq!['/'])
    }
}

/// `Path::starts_with`: the components of `root` open the normalized path.
pub open spec fn root_prefixes(root: Seq<char>, abs: bool, parts: Seq<Seq<char>>) -> bool {
    let rc = comps(root);
    &&& (if is_abs(root) {
        abs
    } else {
        rc.len() == 0 || !abs
    })
    &&& rc.len() <= parts.len()
    &&& forall|i: int| 0 <= i < rc.len() ==> rc[i] == SComp::Normal(parts[i])
}

/// Lexical resolution of `raw` under `root`: the normalized path when it
/// stays under `root`, else `None`.
pub open spec fn lexical(root: Seq<char>, raw: Seq<char>) -> Option<Seq<char>> {
    let abs = joined_abs(root, raw);
    let parts = norm_parts(joined_comps(root, raw));
    if root_prefixes(root, abs, parts) {
        Some(render_path(abs, parts))
    } else {
        None
    }
}

/// `raw` names a place under `root` without any `..` on the way.
pub open spec fn inside(root: Seq<char>, raw: Seq<char>) -> bool {
    lexical(root, raw) is Some && !comps(raw).contains(SComp::Parent)
}

proof fn lemma_before_first_len(p: Seq<char>)
    ensures
        before_first(p, '/').len() <= p.len(),
        forall|j: int| 0 <= j < before_first(p, '/').len() ==> p[j] != '/',
        before_first(p, '/').len() < p.len() ==> p[before_first(p, '/').len() as int] == '/',
        before_first(p, '/') == p.take(before_first(p, '/').len() as int),
{
    lemma_first_index(p, '/');
}

/// Components of the path `p`.
pub fn components(p: &[char]) -> (r: Vec<Comp>)
    ensures
        comps_view(r@) == comps(p@),
{
    let first0 = !(p.len() > 0 && p[0] == '/');
    let mut first = first0;
    let mut out: Vec<Comp> = Vec::new();
    let mut i: usize = 0;
    assert(p@.skip(0) == p@);
    while i < p.len()
        invariant
            i <= p.len(),
            first0 == !is_abs(p@),
            comps_view(out@) + comps_from(p@.skip(i as int), first) == comps(p@),
        decreases p.len() - i,
    {
        let ghost rest = p@.skip(i as int);
        if p[i] == '/' {
            assert(rest.drop_first() == p@.skip(i + 1));
            first = false;
            i = i + 1;
        } else {
            let mut j: usize = i;
            while j < p.len() && p[j] != '/'
                invariant
                    i <= j <= p.len(),
                    forall|k: int| i <= k < j ==> p@[k] != '/',
                decreases p.len() - j,
            {
                j = j + 1;
            }
            let seg = sub_chars(p, i, j);
            proof {
                lemma_before_first_len(rest);
                let b = before_first(rest, '/');
                assert(seg@ == rest.take((j - i) as int));
                if b.len() < j - i {
                    assert(rest[b.len() as int] == p@[i + b.len()]);
                }
                if b.len() > j - i {
                    assert(rest[(j - i) as int] == p@[j as int]);
                }
                assert(b.len() == j - i);
                assert(b == seg@);
                assert(rest.skip((j - i) as int) == p@.skip(j as int));
            }
            let ghost before = comps_view(out@);
            let is_dot = seg.len() == 1 && seg[0] == '.';
            let is_dotdot = seg.len() == 2 && seg[0] == '.' && seg[1] == '.';
            if is_dot {
                assert(seg@ == seq!['.']);
                if first {
                    out.push(Comp::Cur);
                }
            } else if is_dotdot {
                assert(seg@ == seq!['.', '.']);
                out.push(Comp::Parent);
            } else {
                assert(seg@ != seq!['.']);
                assert(seg@ != seq!['.', '.']);
                out.push(Comp::Normal(seg));
            }
            assert(comps_view(out@) == before + seg_comp(seg@, first));
            first = false;
            i = j;
        }
    }
    out
}

/// Normalizes components: `.` dropped, `..` removes the previous name.
pub fn normalize(cs: &[Comp]) -> (r: Vec<Vec<char>>)
    ensures
        r@.map_values(|v: Vec<char>| v@) == norm_parts(comps_view(cs@)),
{
    let mut out: Vec<Vec<char>> = Vec::new();
    let mut i: usize = 0;
    while i < cs.len()
        invariant
            i <= cs.len(),
            out@.map_values(|v: Vec<char>| v@) == norm_parts(comps_view(cs@).take(i as int)),
        decreases cs.len() - i,
    {
        let ghost prev = out@.map_values(|v: Vec<char>| v@);
        assert(comps_view(cs@).take(i + 1).drop_last() == comps_view(cs@).take(i as int));
        match &cs[i] {
            Comp::Cur => {},
            Comp::Parent => {
                if out.len() > 0 {
                    out.pop();
                    assert(out@.map_values(|v: Vec<char>| v@) == prev.drop_last());
                }
            },
            Comp::Normal(x) => {
                out.push(x.clone());
                assert(out@.map_values(|v: Vec<char>| v@) == prev.push(x@));
            },
        }
        i = i + 1;
    }
    assert(comps_view(cs@).take(cs.len() as int) == comps_view(cs@));
    out
}

/// Appends `parts` joined with `/` to `out`.
pub fn push_joined(out: &mut Vec<char>, parts: &[Vec<char>])
    ensures
        final(out)@ == old(out)@ + join(parts@.map_values(|v: Vec<char>| v@), seq!['/']),
{
    let ghost pv = parts@.map_values(|v: Vec<char>| v@);
    let mut i: usize = 0;
    while i < parts.len()
        invariant
            i <= parts.len(),
            pv == parts@.map_values(|v: Vec<char>| v@),
            out@ == old(out)@ + join(pv.take(i as int), seq!['/']),
        decreases parts.len() - i,
    {
        assert(pv.take(i + 1).drop_last() == pv.take(i as int));
        assert(pv.take(i + 1).last() == parts@[i as int]@);
        if i > 0 {
            out.push('/');
        }
        push_chars(out, parts[i].as_slice());
        proof {
            if i == 0 {
                assert(pv.take(1).len() == 1);
            }
            assert(old(out)@ + join(pv.take(i as int), seq!['/']) + (if i > 0 {
                seq!['/']
            } else {
                Seq::empty()
            }) + parts@[i as int]@ == old(out)@ + join(pv.take(i + 1), seq!['/']));
        }
        i = i + 1;
    }
    assert(pv.take(parts.len() as int) == pv);
}

/// A copy of a component.
fn copy_comp(c: &Comp) -> (r: Comp)
    ensures
        r.sv() == c.sv(),
{
    match c {
        Comp::Cur => Comp::Cur,
        Comp::Parent => Comp::Parent,
        Comp::Normal(x) => {
            let y = sub_chars(x.as_slice(), 0, x.len());
            assert(y@ == x@);
            Comp::Normal(y)
        },
    }
}

/// Every component of `rc` is the name at the same place in `parts`.
fn names_prefix(rc: &[Comp], parts: &[Vec<char>]) -> (r: bool)
    requires
        rc.len() <= parts.len(),
    ensures
        r == forall|i: int|
            0 <= i < rc@.len() ==> comps_view(rc@)[i] == SComp::Normal(
                parts@.map_values(|v: Vec<char>| v@)[i],
            ),
{
    let ghost pv = parts@.map_values(|v: Vec<char>| v@);
    let mut k: usize = 0;
    while k < rc.len()
        invariant
            k <= rc.len() <= parts.len(),
            pv == parts@.map_values(|v: Vec<char>| v@),
            forall|i: int| 0 <= i < k ==> comps_view(rc@)[i] == SComp::Normal(pv[i]),
        decreases rc.len() - k,
    {
        let same = match &rc[k] {
            Comp::Normal(x) => chars_eq(x.as_slice(), parts[k].as_slice()),
            _ => false,
        };
        if !same {
            assert(comps_view(rc@)[k as int] != SComp::Normal(pv[k as int]));
            return false;
        }
        k = k + 1;
    }
    true
}

/// Lexically resolves `raw` against `root` (no symlinks are followed):
/// the normalized path when it stays under `root`.
pub fn resolve_lexical(root: &str, raw: &str) -> (r: Option<String>)
    ensures
        match r {
            Some(p) => lexical(root@, raw@) == Some(p@),
            None => lexical(root@, raw@) is None,
        },
{
    let root_c = chars_of(root);
    let raw_c = chars_of(raw);
    match lexical_chars(root_c.as_slice(), raw_c.as_slice()) {
        Some(p) => Some(string_from(p.as_slice())),
        None => None,
    }
}

/// `raw` names a place under `root` with no `..` on the way there.
///
/// This is decided lexically: a `..` component is refused outright, since a
/// symbolic link before it could lead out of the root.
pub fn inside_root(root: &[char], raw: &[char]) -> (r: bool)
    ensures
        r == inside(root@, raw@),
{
    match lexical_chars(root, raw) {
        None => false,
        Some(_) => {
            let cs = components(raw);
            let mut k: usize = 0;
            while k < cs.len()
                invariant
                    k <= cs.len(),
                    comps_view(cs@) == comps(raw@),
                    forall|i: int| 0 <= i < k ==> comps(raw@)[i] != SComp::Parent,
                decreases cs.len() - k,
            {
                if let Comp::Parent = &cs[k] {
                    assert(comps(raw@)[k as int] == SComp::Parent);
                    return false;
                }
                k = k + 1;
            }
            assert(!comps(raw@).contains(SComp::Parent));
            true
        },
    }
}

/// [`resolve_lexical`] on character slices.
pub fn lexical_chars(root_c: &[char], raw_c: &[char]) -> (r: Option<Vec<char>>)
    ensures
        match r {
            Some(p) => lexical(root_c@, raw_c@) == Some(p@),
            None => lexical(root_c@, raw_c@) is None,
        },
{
    let raw_abs = raw_c.len() > 0 && raw_c[0] == '/';
    let root_abs = root_c.len() > 0 && root_c[0] == '/';
    let rc = components(root_c);
    let wc = components(raw_c);
    let mut all: Vec<Comp> = Vec::new();
    if !raw_abs {
        let mut k: usize = 0;
        while k < rc.len()
            invariant
                k <= rc.len(),
                comps_view(all@) == comps_view(rc@).take(k as int),
            decreases rc.len() - k,
        {
            let c = copy_comp(&rc[k]);
            let ghost before = all@;
            all.push(c);
            assert(comps_view(all@) =~= comps_view(before).push(rc@[k as int].sv()));
            assert(comps_view(rc@).take(k + 1) =~= comps_view(rc@).take(k as int).push(
                rc@[k as int].sv(),
            ));
            k = k + 1;
        }
    }
    let ghost mid = comps_view(all@);
    let mut k: usize = 0;
    while k < wc.len()
        invariant
            k <= wc.len(),
            comps_view(all@) == mid + comps_view(wc@).take(k as int),
        decreases wc.len() - k,
    {
        let c = copy_comp(&wc[k]);
        let ghost before = all@;
        all.push(c);
        assert(comps_view(all@) =~= comps_view(before).push(wc@[k as int].sv()));
        assert(comps_view(wc@).take(k + 1) =~= comps_view(wc@).take(k as int).push(
            wc@[k as int].sv(),
        ));
        k = k + 1;
    }
    proof {
        assert(comps_view(rc@).take(rc@.len() as int) == comps_view(rc@));
        assert(comps_view(wc@).take(wc@.len() as int) == comps_view(wc@));
        assert(comps_view(all@) == joined_comps(root_c@, raw_c@));
    }
    let abs = raw_abs || root_abs;
    let parts = normalize(all.as_slice());
    let ghost pv = parts@.map_values(|v: Vec<char>| v@);
    // Path::starts_with(root)
    let ok = (if root_abs {
        abs
    } else {
        rc.len() == 0 || !abs
    }) && rc.len() <= parts.len() && names_prefix(rc.as_slice(), parts.as_slice());
    if !ok {
        return None;
    }
    let mut out: Vec<char> = Vec::new();
    if abs {
        out.push('/');
    }
    push_joined(&mut out, parts.as_slice());
    Some(out)
}

/// `Path::starts_with`: the components of `base` (its root included) open
/// those of `p`.
pub open spec fn path_starts_with(p: Seq<char>, base: Seq<char>) -> bool {
    let bc = comps(base);
    let pc = comps(p);
    &&& (if is_abs(base) {
        is_abs(p)
    } else {
        bc.len() == 0 || !is_abs(p)
    })
    &&& bc.len() <= pc.len()
    &&& pc.take(bc.len() as int) == bc
}

fn comp_eq(a: &Comp, b: &Comp) -> (r: bool)
    ensures
        r == (a.sv() == b.sv()),
{
    match (a, b) {
        (Comp::Cur, Comp::Cur) => true,
        (Comp::Parent, Comp::Parent) => true,
        (Comp::Normal(x), Comp::Normal(y)) => chars_eq(x.as_slice(), y.as_slice()),
        _ => false,
    }
}

/// Whether the path `p` starts with the path `base`, component by
/// component.
pub fn starts_with_path(p: &str, base: &str) -> (r: bool)
    ensures
        r == path_starts_with(p@, base@),
{
    let pc_chars = chars_of(p);
    let bc_chars = chars_of(base);
    let p_abs = pc_chars.len() > 0 && pc_chars[0] == '/';
    let b_abs = bc_chars.len() > 0 && bc_chars[0] == '/';
    let pc = components(pc_chars.as_slice());
    let bc = components(bc_chars.as_slice());
    let roots_ok = if b_abs {
        p_abs
    } else {
        bc.len() == 0 || !p_abs
    };
    if !roots_ok || bc.len() > pc.len() {
        return false;
    }
    let mut k: usize = 0;
    while k < bc.len()
        invariant
            k <= bc.len() <= pc.len(),
            comps_view(pc@) == comps(p@),
            comps_view(bc@) == comps(base@),
            comps(p@).take(k as int) == comps(base@).take(k as int),
        decreases bc.len() - k,
    {
        if !comp_eq(&pc[k], &bc[k]) {
            assert(comps(p@).take(bc.len() as int)[k as int] != comps(base@)[k as int]);
            return false;
        }
        assert(comps(p@).take(k + 1) =~= comps(p@).take(k as int).push(comps(p@)[k as int]));
        assert(comps(base@).take(k + 1) =~= comps(base@).take(k as int).push(
            comps(base@)[k as int],
        ));
        k = k + 1;
    }
    assert(comps(base@).take(bc.len() as int) == comps(base@));
    true
}

} // verus!
