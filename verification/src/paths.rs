//! Paths as text: joining, components and file names, as `std::path`
//! treats Unix paths.

use vstd::prelude::*;

use crate::text::{chars_of, push_char, seq_lt, str_eq, str_lt, string_of, views};

verus! {

pub open spec fn is_abs(p: Seq<char>) -> bool {
    p.len() > 0 && p[0] == '/'
}

/// `a` joined with `b`, as `Path::join` does it: an absolute `b` replaces
/// `a`, and a separator is added only where `a` has none at its end.
pub open spec fn path_join(a: Seq<char>, b: Seq<char>) -> Seq<char> {
    if is_abs(b) {
        b
    } else if a.len() == 0 {
        b
    } else if a.last() == '/' {
        a + b
    } else {
        a.push('/') + b
    }
}

pub fn join_path(a: &str, b: &str) -> (r: String)
    ensures
        r@ == path_join(a@, b@),
{
    let va = chars_of(a);
    let vb = chars_of(b);
    if vb.len() > 0 && vb[0] == '/' {
        return b.to_owned();
    }
    if va.len() == 0 {
        return b.to_owned();
    }
    let mut r = a.to_owned();
    if va[va.len() - 1] != '/' {
        push_char(&mut r, '/');
    }
    r.append(b);
    r
}

/// Index of the first `/` in `s`, or `s.len()`.
pub open spec fn first_slash(s: Seq<char>) -> nat
    decreases s.len(),
{
    if s.len() == 0 {
        0
    } else if s[0] == '/' {
        0
    } else {
        1 + first_slash(s.drop_first())
    }
}

pub proof fn lemma_first_slash_at(s: Seq<char>, k: int)
    requires
        0 <= k <= s.len(),
        forall|m: int| 0 <= m < k ==> s[m] != '/',
        k < s.len() ==> s[k] == '/',
    ensures
        first_slash(s) == k,
    decreases s.len(),
{
    if k > 0 {
        let t = s.drop_first();
        assert forall|m: int| 0 <= m < k - 1 implies t[m] != '/' by {
            assert(t[m] == s[m + 1]);
        }
        if k < s.len() {
            assert(t[k - 1] == s[k]);
        }
        lemma_first_slash_at(t, k - 1);
    }
}

/// Whether a `/`-separated segment is a component: empty and `.` segments
/// are not.
pub open spec fn kept_segment(seg: Seq<char>) -> bool {
    seg.len() > 0 && seg != seq!['.']
}

/// The normal components of `s`, in order.
pub open spec fn segments(s: Seq<char>) -> Seq<Seq<char>>
    decreases s.len(),
{
    if s.len() == 0 {
        seq![]
    } else {
        let k = first_slash(s);
        let seg = s.take(k as int);
        let head: Seq<Seq<char>> = if kept_segment(seg) { seq![seg] } else { seq![] };
        if k < s.len() {
            head + segments(s.skip(k as int + 1))
        } else {
            head
        }
    }
}

/// The components of a path: a root marker `/` for an absolute path, then
/// its normal components.
pub open spec fn components(p: Seq<char>) -> Seq<Seq<char>> {
    if is_abs(p) {
        seq![seq!['/']] + segments(p)
    } else {
        segments(p)
    }
}

/// The last component of a path, as `Path::file_name` gives it.
pub open spec fn file_name(p: Seq<char>) -> Option<Seq<char>> {
    let cs = segments(p);
    if cs.len() == 0 || cs.last() == seq!['.', '.'] {
        None
    } else {
        Some(cs.last())
    }
}

/// Whether `base`'s components are a prefix of `p`'s, as `Path::starts_with`.
pub open spec fn path_starts_with(p: Seq<char>, base: Seq<char>) -> bool {
    let a = components(p);
    let b = components(base);
    b.len() <= a.len() && a.take(b.len() as int) == b
}

pub open spec fn seg_views(v: Seq<char>, rs: Seq<(usize, usize)>) -> Seq<Seq<char>> {
    rs.map_values(|r: (usize, usize)| v.subrange(r.0 as int, r.1 as int))
}

fn is_kept(v: &Vec<char>, lo: usize, hi: usize) -> (r: bool)
    requires
        lo <= hi <= v@.len(),
    ensures
        r == kept_segment(v@.subrange(lo as int, hi as int)),
{
    if hi == lo {
        false
    } else if hi - lo == 1 && v[lo] == '.' {
        assert(v@.subrange(lo as int, hi as int) =~= seq!['.']);
        false
    } else {
        if hi - lo == 1 {
            assert(v@.subrange(lo as int, hi as int)[0] != seq!['.'][0]);
        } else {
            assert(v@.subrange(lo as int, hi as int).len() != seq!['.'].len());
        }
        true
    }
}

/// Bounds of the normal components of `v`.
pub fn segment_ranges(v: &Vec<char>) -> (rs: Vec<(usize, usize)>)
    ensures
        seg_views(v@, rs@) == segments(v@),
        forall|i: int| 0 <= i < rs@.len() ==> (#[trigger] rs@[i]).0 <= rs@[i].1 <= v@.len(),
{
    let n = v.len();
    let mut rs: Vec<(usize, usize)> = Vec::new();
    let mut pos: usize = 0;
    let mut i: usize = 0;
    assert(v@.subrange(0, n as int) == v@);
    assert(seg_views(v@, rs@) + segments(v@) =~= segments(v@));
    while i < n
        invariant
            n == v@.len(),
            pos <= i <= n,
            forall|m: int| pos <= m < i ==> v@[m] != '/',
            seg_views(v@, rs@) + segments(v@.subrange(pos as int, n as int)) == segments(v@),
            forall|j: int| 0 <= j < rs@.len() ==> (#[trigger] rs@[j]).0 <= rs@[j].1 <= v@.len(),
        decreases n - i,
    {
        if v[i] == '/' {
            let ghost rest = v@.subrange(pos as int, n as int);
            proof {
                lemma_first_slash_at(rest, i - pos);
                assert(rest.take(i - pos) == v@.subrange(pos as int, i as int));
                assert(rest.skip(i - pos + 1) == v@.subrange(i + 1, n as int));
            }
            let ghost old_rs = rs@;
            if is_kept(v, pos, i) {
                rs.push((pos, i));
                proof {
                    assert(seg_views(v@, rs@) =~= seg_views(v@, old_rs).push(
                        v@.subrange(pos as int, i as int),
                    ));
                    assert(seg_views(v@, rs@) + segments(v@.subrange(i + 1, n as int))
                        =~= seg_views(v@, old_rs) + segments(rest));
                }
            } else {
                proof {
                    assert(segments(rest) =~= segments(v@.subrange(i + 1, n as int)));
                }
            }
            pos = i + 1;
        }
        i = i + 1;
    }
    let ghost rest = v@.subrange(pos as int, n as int);
    if pos < n {
        proof {
            lemma_first_slash_at(rest, n - pos);
            assert(rest.take(n - pos) =~= rest);
        }
        let ghost old_rs = rs@;
        if is_kept(v, pos, n) {
            rs.push((pos, n));
            proof {
                assert(seg_views(v@, rs@) =~= seg_views(v@, old_rs).push(rest));
                assert(segments(rest) =~= seq![rest]);
                assert(seg_views(v@, rs@) =~= seg_views(v@, old_rs) + segments(rest));
            }
        } else {
            assert(segments(rest) =~= Seq::<Seq<char>>::empty());
            assert(seg_views(v@, rs@) =~= seg_views(v@, rs@) + segments(rest));
        }
    } else {
        assert(segments(rest) =~= Seq::<Seq<char>>::empty());
        assert(seg_views(v@, rs@) =~= seg_views(v@, rs@) + segments(rest));
    }
    rs
}

/// The last component of `p`, when it has one that is not `..`.
pub fn path_file_name(p: &str) -> (r: Option<String>)
    ensures
        match file_name(p@) {
            Some(n) => r matches Some(s) && s@ == n,
            None => r is None,
        },
{
    let v = chars_of(p);
    let rs = segment_ranges(&v);
    if rs.len() == 0 {
        return None;
    }
    let (lo, hi) = rs[rs.len() - 1];
    assert(seg_views(v@, rs@).last() == v@.subrange(lo as int, hi as int));
    if hi - lo == 2 && v[lo] == '.' && v[lo + 1] == '.' {
        assert(v@.subrange(lo as int, hi as int) =~= seq!['.', '.']);
        return None;
    }
    if hi - lo == 2 {
        assert(v@.subrange(lo as int, hi as int) != seq!['.', '.']) by {
            if v@[lo as int] != '.' {
                assert(v@.subrange(lo as int, hi as int)[0] != seq!['.', '.'][0]);
            } else {
                assert(v@.subrange(lo as int, hi as int)[1] != seq!['.', '.'][1]);
            }
        }
    }
    Some(string_of(&v, lo, hi))
}

/// Whether `p` lies at or below `base`, component by component.
pub fn path_has_prefix(p: &str, base: &str) -> (r: bool)
    ensures
        r == path_starts_with(p@, base@),
{
    let vp = chars_of(p);
    let vb = chars_of(base);
    let abs_p = vp.len() > 0 && vp[0] == '/';
    let abs_b = vb.len() > 0 && vb[0] == '/';
    if abs_p != abs_b {
        proof {
            let a = components(p@);
            let b = components(base@);
            if b.len() <= a.len() && a.take(b.len() as int) == b {
                if abs_b {
                    assert(b[0] == seq!['/']);
                    assert(a[0] == seq!['/']);
                    lemma_segments_nonroot(p@);
                    assert(a == segments(p@));
                } else {
                    lemma_segments_nonroot(base@);
                    if b.len() > 0 {
                        assert(a[0] == seq!['/']);
                        assert(b[0] == a[0]);
                        assert(b[0] == segments(base@)[0]);
                    } else {
                        assert(b.len() == 0);
                    }
                }
                if abs_p && b.len() > 0 {
                    assert(a.take(b.len() as int)[0] == a[0]);
                }
            }
            if abs_p && !abs_b && components(base@).len() == 0 {
                assert(components(p@).take(0) =~= components(base@));
            }
        }
        if !abs_b {
            let rb0 = segment_ranges(&vb);
            if rb0.len() == 0 {
                proof {
                    assert(components(p@).take(0) =~= components(base@));
                }
                return true;
            }
        }
        return false;
    }
    let rp = segment_ranges(&vp);
    let rb = segment_ranges(&vb);
    if rb.len() > rp.len() {
        return false;
    }
    let mut k: usize = 0;
    while k < rb.len()
        invariant
            vp@ == p@,
            vb@ == base@,
            abs_p == is_abs(p@),
            abs_b == is_abs(base@),
            abs_p == abs_b,
            seg_views(vp@, rp@) == segments(p@),
            seg_views(vb@, rb@) == segments(base@),
            forall|i: int| 0 <= i < rp@.len() ==> (#[trigger] rp@[i]).0 <= rp@[i].1 <= vp@.len(),
            forall|i: int| 0 <= i < rb@.len() ==> (#[trigger] rb@[i]).0 <= rb@[i].1 <= vb@.len(),
            rb@.len() <= rp@.len(),
            k <= rb@.len(),
            forall|m: int| 0 <= m < k ==> segments(p@)[m] == segments(base@)[m],
        decreases rb@.len() - k,
    {
        let (a0, a1) = rp[k];
        let (b0, b1) = rb[k];
        let same = segment_eq(&vp, a0, a1, &vb, b0, b1);
        assert(seg_views(vp@, rp@)[k as int] == vp@.subrange(a0 as int, a1 as int));
        assert(seg_views(vb@, rb@)[k as int] == vb@.subrange(b0 as int, b1 as int));
        if !same {
            proof {
                lemma_prefix_mismatch(p@, base@, k as int);
            }
            return false;
        }
        k = k + 1;
    }
    proof {
        lemma_prefix_match(p@, base@);
    }
    true
}

proof fn lemma_segments_nonroot(s: Seq<char>)
    ensures
        forall|i: int| 0 <= i < segments(s).len() ==> #[trigger] segments(s)[i] != seq!['/'],
    decreases s.len(),
{
    if s.len() > 0 {
        let k = first_slash(s);
        lemma_first_slash_bound(s);
        let seg = s.take(k as int);
        if kept_segment(seg) {
            assert(seg != seq!['/']) by {
                if seg.len() == 1 {
                    assert(seg[0] == s[0]);
                }
            }
        }
        if k < s.len() {
            lemma_segments_nonroot(s.skip(k as int + 1));
        }
        let head: Seq<Seq<char>> = if kept_segment(seg) { seq![seg] } else { seq![] };
        if k < s.len() {
            assert forall|i: int| 0 <= i < segments(s).len() implies #[trigger] segments(s)[i]
                != seq!['/'] by {
                if i >= head.len() {
                    assert(segments(s)[i] == segments(s.skip(k as int + 1))[i - head.len()]);
                }
            }
        }
    }
}

proof fn lemma_first_slash_bound(s: Seq<char>)
    ensures
        first_slash(s) <= s.len(),
        forall|m: int| 0 <= m < first_slash(s) ==> s[m] != '/',
    decreases s.len(),
{
    if s.len() > 0 && s[0] != '/' {
        lemma_first_slash_bound(s.drop_first());
        assert forall|m: int| 0 <= m < first_slash(s) implies s[m] != '/' by {
            if m > 0 {
                assert(s[m] == s.drop_first()[m - 1]);
            }
        }
    }
}

proof fn lemma_prefix_mismatch(p: Seq<char>, base: Seq<char>, k: int)
    requires
        is_abs(p) == is_abs(base),
        0 <= k < segments(base).len(),
        k < segments(p).len(),
        segments(p)[k] != segments(base)[k],
    ensures
        !path_starts_with(p, base),
{
    let a = components(p);
    let b = components(base);
    let off: int = if is_abs(p) { 1 } else { 0 };
    assert(a[k + off] == segments(p)[k]);
    assert(b[k + off] == segments(base)[k]);
    if b.len() <= a.len() && a.take(b.len() as int) == b {
        assert(a.take(b.len() as int)[k + off] == a[k + off]);
    }
}

proof fn lemma_prefix_match(p: Seq<char>, base: Seq<char>)
    requires
        is_abs(p) == is_abs(base),
        segments(base).len() <= segments(p).len(),
        forall|m: int| 0 <= m < segments(base).len() ==> segments(p)[m] == segments(base)[m],
    ensures
        path_starts_with(p, base),
{
    let a = components(p);
    let b = components(base);
    assert(a.take(b.len() as int) =~= b);
}

fn segment_eq(v: &Vec<char>, a0: usize, a1: usize, w: &Vec<char>, b0: usize, b1: usize) -> (r: bool)
    requires
        a0 <= a1 <= v@.len(),
        b0 <= b1 <= w@.len(),
    ensures
        r == (v@.subrange(a0 as int, a1 as int) == w@.subrange(b0 as int, b1 as int)),
{
    if a1 - a0 != b1 - b0 {
        assert(v@.subrange(a0 as int, a1 as int).len() != w@.subrange(b0 as int, b1 as int).len());
        return false;
    }
    let mut i: usize = 0;
    while i < a1 - a0
        invariant
            a0 <= a1 <= v@.len(),
            b0 <= b1 <= w@.len(),
            a1 - a0 == b1 - b0,
            i <= a1 - a0,
            forall|m: int| 0 <= m < i ==> #[trigger] v@.subrange(a0 as int, a1 as int)[m]
                == w@.subrange(b0 as int, b1 as int)[m],
        decreases a1 - a0 - i,
    {
        assert(v@.subrange(a0 as int, a1 as int)[i as int] == v@[a0 + i]);
        assert(w@.subrange(b0 as int, b1 as int)[i as int] == w@[b0 + i]);
        if v[a0 + i] != w[b0 + i] {
            assert(v@.subrange(a0 as int, a1 as int)[i as int] != w@.subrange(b0 as int, b1 as int)[i as int]);
            return false;
        }
        i = i + 1;
    }
    assert(v@.subrange(a0 as int, a1 as int) =~= w@.subrange(b0 as int, b1 as int));
    true
}

// ---------------------------------------------------------------------
// Comparing paths as `std::path::Path` does
// ---------------------------------------------------------------------

/// Whether a relative path begins with a `.` component, which
/// `Path::components` keeps at the start of a path.
pub open spec fn curdir_start(p: Seq<char>) -> bool {
    !is_abs(p) && p.len() > 0 && p[0] == '.' && (p.len() == 1 || p[1] == '/')
}

/// The components `Path::components` gives on Unix: the root `/`, or a
/// leading `.`, then the normal components (`..` among them).
pub open spec fn path_key(p: Seq<char>) -> Seq<Seq<char>> {
    if is_abs(p) {
        seq![seq!['/']] + segments(p)
    } else if curdir_start(p) {
        seq![seq!['.']] + segments(p)
    } else {
        segments(p)
    }
}

/// The place of a component in `std::path::Component`'s order: the root,
/// then `.`, then `..`, then normal components.
pub open spec fn comp_rank(c: Seq<char>) -> int {
    if c == seq!['/'] {
        0
    } else if c == seq!['.'] {
        1
    } else if c == seq!['.', '.'] {
        2
    } else {
        3
    }
}

/// Whether component `x` sorts before component `y`: by kind, and normal
/// components by their text.
pub open spec fn comp_lt(x: Seq<char>, y: Seq<char>) -> bool {
    comp_rank(x) < comp_rank(y) || (comp_rank(x) == 3 && comp_rank(y) == 3 && seq_lt(x, y))
}

/// Component lists in lexicographic order.
pub open spec fn comps_lt(a: Seq<Seq<char>>, b: Seq<Seq<char>>) -> bool
    decreases a.len(),
{
    if a.len() == 0 {
        b.len() > 0
    } else if b.len() == 0 {
        false
    } else if a[0] != b[0] {
        comp_lt(a[0], b[0])
    } else {
        comps_lt(a.drop_first(), b.drop_first())
    }
}

/// Whether path `a` sorts before path `b`, as `Path`'s order has it:
/// component by component.
pub open spec fn path_lt(a: Seq<char>, b: Seq<char>) -> bool {
    comps_lt(path_key(a), path_key(b))
}

/// Whether two paths are equal as `Path`s: the same components.
pub open spec fn path_same(a: Seq<char>, b: Seq<char>) -> bool {
    path_key(a) == path_key(b)
}

fn one_char(c: char) -> (r: String)
    ensures
        r@ == seq![c],
{
    let mut s = String::new();
    push_char(&mut s, c);
    assert(s@ =~= seq![c]);
    s
}

/// The components of `p`, as `Path::components` gives them.
pub fn path_components(p: &str) -> (r: Vec<String>)
    ensures
        views(r@) == path_key(p@),
{
    let v = chars_of(p);
    let rs = segment_ranges(&v);
    let mut r: Vec<String> = Vec::new();
    let ghost head: Seq<Seq<char>>;
    if v.len() > 0 && v[0] == '/' {
        r.push(one_char('/'));
        proof { head = seq![seq!['/']]; }
    } else if v.len() > 0 && v[0] == '.' && (v.len() == 1 || v[1] == '/') {
        r.push(one_char('.'));
        proof { head = seq![seq!['.']]; }
    } else {
        proof { head = seq![]; }
    }
    assert(views(r@) =~= head);
    assert(path_key(p@) == head + segments(v@));
    let mut i: usize = 0;
    while i < rs.len()
        invariant
            i <= rs@.len(),
            forall|k: int| 0 <= k < rs@.len() ==> (#[trigger] rs@[k]).0 <= rs@[k].1 <= v@.len(),
            views(r@) == head + seg_views(v@, rs@).take(i as int),
        decreases rs@.len() - i,
    {
        let (lo, hi) = rs[i];
        assert(rs@[i as int].0 <= rs@[i as int].1 <= v@.len());
        let ghost before = views(r@);
        let c = string_of(&v, lo, hi);
        r.push(c);
        assert(seg_views(v@, rs@).take(i + 1) =~= seg_views(v@, rs@).take(i as int).push(v@.subrange(lo as int, hi as int)));
        assert(views(r@) =~= before.push(v@.subrange(lo as int, hi as int)));
        i = i + 1;
    }
    assert(seg_views(v@, rs@).take(rs@.len() as int) =~= seg_views(v@, rs@));
    r
}

fn comp_rank_of(c: &str) -> (r: u8)
    ensures
        r == comp_rank(c@),
{
    let v = chars_of(c);
    if v.len() == 1 && v[0] == '/' {
        assert(v@ =~= seq!['/']);
        0
    } else if v.len() == 1 && v[0] == '.' {
        assert(v@ =~= seq!['.']);
        assert(v@ != seq!['/']);
        1
    } else if v.len() == 2 && v[0] == '.' && v[1] == '.' {
        assert(v@ =~= seq!['.', '.']);
        2
    } else {
        proof {
            if v@ == seq!['/'] {
                assert(v@[0] == '/');
            }
            if v@ == seq!['.'] {
                assert(v@[0] == '.');
            }
            if v@ == seq!['.', '.'] {
                assert(v@[0] == '.' && v@[1] == '.');
            }
        }
        3
    }
}

fn comps_lt_of(a: &Vec<String>, b: &Vec<String>) -> (r: bool)
    ensures
        r == comps_lt(views(a@), views(b@)),
{
    let ghost va = views(a@);
    let ghost vb = views(b@);
    let mut i: usize = 0;
    assert(va.skip(0) =~= va);
    assert(vb.skip(0) =~= vb);
    while i < a.len() && i < b.len()
        invariant
            va == views(a@),
            vb == views(b@),
            i <= a@.len(),
            i <= b@.len(),
            comps_lt(va, vb) == comps_lt(va.skip(i as int), vb.skip(i as int)),
        decreases a@.len() - i,
    {
        let x = a[i].as_str();
        let y = b[i].as_str();
        assert(va.skip(i as int)[0] == x@);
        assert(vb.skip(i as int)[0] == y@);
        if !str_eq(x, y) {
            let rx = comp_rank_of(x);
            let ry = comp_rank_of(y);
            return rx < ry || (rx == 3 && ry == 3 && str_lt(x, y));
        }
        assert(va.skip(i as int).drop_first() =~= va.skip(i + 1));
        assert(vb.skip(i as int).drop_first() =~= vb.skip(i + 1));
        i = i + 1;
    }
    i < b.len() && i >= a.len()
}

/// Whether path `a` sorts before path `b` in `Path`'s order.
pub fn path_precedes(a: &str, b: &str) -> (r: bool)
    ensures
        r == path_lt(a@, b@),
{
    let ca = path_components(a);
    let cb = path_components(b);
    comps_lt_of(&ca, &cb)
}

/// Whether `a` and `b` are the same path, component by component.
pub fn same_path(a: &str, b: &str) -> (r: bool)
    ensures
        r == path_same(a@, b@),
{
    let ca = path_components(a);
    let cb = path_components(b);
    if ca.len() != cb.len() {
        assert(views(ca@).len() != views(cb@).len());
        return false;
    }
    let mut i: usize = 0;
    while i < ca.len()
        invariant
            ca@.len() == cb@.len(),
            views(ca@) == path_key(a@),
            views(cb@) == path_key(b@),
            i <= ca@.len(),
            forall|k: int| 0 <= k < i ==> ca@[k]@ == cb@[k]@,
        decreases ca@.len() - i,
    {
        if !str_eq(ca[i].as_str(), cb[i].as_str()) {
            assert(views(ca@)[i as int] == ca@[i as int]@);
            assert(views(cb@)[i as int] == cb@[i as int]@);
            assert(views(ca@)[i as int] != views(cb@)[i as int]);
            return false;
        }
        i = i + 1;
    }
    assert(views(ca@) =~= views(cb@));
    true
}

} // verus!
