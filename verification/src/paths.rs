//! Unix path text: components, file name, parent and join, as `std::path`
//! reads and builds `/`-separated paths.

use vstd::prelude::*;
use crate::text::{append_chars, chars_eq, chars_of, join_with, lemma_split_fold_concat, split_on, split_vec, views};

verus! {

/// A path component.
pub enum PathComponent {
    RootDir,
    CurDir,
    ParentDir,
    Normal(Vec<char>),
}

/// The mathematical form of a path component.
pub enum PathComp {
    Root,
    Cur,
    Parent,
    Normal(Seq<char>),
}

impl PathComponent {
    pub open spec fn comp(&self) -> PathComp {
        match self {
            PathComponent::RootDir => PathComp::Root,
            PathComponent::CurDir => PathComp::Cur,
            PathComponent::ParentDir => PathComp::Parent,
            PathComponent::Normal(n) => PathComp::Normal(n@),
        }
    }
}

pub open spec fn comps_of(v: Seq<PathComponent>) -> Seq<PathComp> {
    v.map_values(|c: PathComponent| c.comp())
}

/// The path starts at the root.
pub open spec fn is_absolute(s: Seq<char>) -> bool {
    s.len() > 0 && s[0] == '/'
}

/// The component that segment `i` of a path stands for, if any: empty
/// segments and `.` are skipped, except a leading `.` of a relative path.
pub open spec fn segment_comp(segs: Seq<Seq<char>>, i: int, root: bool) -> Option<PathComp> {
    let g = segs[i];
    if g.len() == 0 {
        None
    } else if g == "."@ {
        if i == 0 && !root {
            Some(PathComp::Cur)
        } else {
            None
        }
    } else if g == ".."@ {
        Some(PathComp::Parent)
    } else {
        Some(PathComp::Normal(g))
    }
}

/// Components of the first `n` segments.
pub open spec fn segment_comps(segs: Seq<Seq<char>>, n: int, root: bool) -> Seq<PathComp>
    decreases n,
{
    if n <= 0 {
        Seq::empty()
    } else {
        let prev = segment_comps(segs, n - 1, root);
        match segment_comp(segs, n - 1, root) {
            Some(c) => prev.push(c),
            None => prev,
        }
    }
}

/// `Path::components` of a `/`-separated path.
pub open spec fn components(s: Seq<char>) -> Seq<PathComp> {
    let segs = split_on(s, '/');
    let root = is_absolute(s);
    let rest = segment_comps(segs, segs.len() as int, root);
    if root {
        seq![PathComp::Root] + rest
    } else {
        rest
    }
}

/// `Path::file_name`: the last component when it is a normal name.
pub open spec fn file_name(s: Seq<char>) -> Option<Seq<char>> {
    let c = components(s);
    if c.len() > 0 && c.last() is Normal {
        Some(c.last()->Normal_0)
    } else {
        None
    }
}

/// Text of a component.
pub open spec fn comp_text(c: PathComp) -> Seq<char> {
    match c {
        PathComp::Root => Seq::empty(),
        PathComp::Cur => "."@,
        PathComp::Parent => ".."@,
        PathComp::Normal(n) => n,
    }
}

/// A path rebuilt from components.
pub open spec fn render(c: Seq<PathComp>) -> Seq<char> {
    if c.len() > 0 && c[0] is Root {
        "/"@ + join_with(c.drop_first().map_values(|x: PathComp| comp_text(x)), "/"@)
    } else {
        join_with(c.map_values(|x: PathComp| comp_text(x)), "/"@)
    }
}

/// `Path::parent`, rebuilt from the components before the last one; `None`
/// for an empty path and for the root.
pub open spec fn parent(s: Seq<char>) -> Option<Seq<char>> {
    let c = components(s);
    if c.len() == 0 || c.last() is Root {
        None
    } else {
        Some(render(c.drop_last()))
    }
}

/// `Path::join`: an absolute `rel` replaces `base`; otherwise a `/` is put
/// between them when `base` is not empty and does not already end in one.
pub open spec fn join(base: Seq<char>, rel: Seq<char>) -> Seq<char> {
    if is_absolute(rel) {
        rel
    } else if base.len() == 0 || base.last() == '/' {
        base + rel
    } else {
        base + "/"@ + rel
    }
}

pub fn join_path(base: &[char], rel: &[char]) -> (r: Vec<char>)
    ensures
        r@ == join(base@, rel@),
{
    let mut out: Vec<char> = Vec::new();
    if rel.len() > 0 && rel[0] == '/' {
        append_chars(&mut out, rel);
        assert(out@ =~= rel@);
        return out;
    }
    append_chars(&mut out, base);
    if base.len() > 0 && base[base.len() - 1] != '/' {
        out.push('/');
        assert(out@ =~= base@ + "/"@) by {
            reveal_strlit("/");
        }
    }
    append_chars(&mut out, rel);
    out
}

/// Joins path texts.
pub fn join_str(base: &str, rel: &str) -> (r: String)
    ensures
        r@ == join(base@, rel@),
{
    crate::text::string_of(&join_path(&chars_of(base), &chars_of(rel)))
}

/// The components of a path.
pub fn path_components(s: &[char]) -> (r: Vec<PathComponent>)
    ensures
        comps_of(r@) == components(s@),
{
    let root = s.len() > 0 && s[0] == '/';
    let segs = split_vec(s, '/');
    let ghost sv = views(segs@);
    let dot = chars_of(".");
    let dotdot = chars_of("..");
    let mut out: Vec<PathComponent> = Vec::new();
    if root {
        out.push(PathComponent::RootDir);
    }
    let ghost pre: Seq<PathComp> = if root {
        seq![PathComp::Root]
    } else {
        Seq::empty()
    };
    assert(comps_of(out@) =~= pre + segment_comps(sv, 0, root));
    let mut i: usize = 0;
    while i < segs.len()
        invariant
            i <= segs@.len(),
            sv == views(segs@),
            sv == split_on(s@, '/'),
            root == is_absolute(s@),
            dot@ == "."@,
            dotdot@ == ".."@,
            pre == (if root {
                seq![PathComp::Root]
            } else {
                Seq::<PathComp>::empty()
            }),
            comps_of(out@) == pre + segment_comps(sv, i as int, root),
        decreases segs.len() - i,
    {
        let g = &segs[i];
        assert(sv[i as int] == g@);
        let ghost before = out@;
        if g.len() == 0 {
        } else if chars_eq(g, &dot) {
            if i == 0 && !root {
                out.push(PathComponent::CurDir);
            }
        } else if chars_eq(g, &dotdot) {
            out.push(PathComponent::ParentDir);
        } else {
            let copy = crate::text::slice_chars(g, 0, g.len());
            assert(copy@ =~= g@);
            out.push(PathComponent::Normal(copy));
        }
        proof {
            assert(comps_of(out@) =~= pre + segment_comps(sv, i + 1, root)) by {
                assert(comps_of(before) == pre + segment_comps(sv, i as int, root));
                if out@.len() > before.len() {
                    assert(out@ == before.push(out@.last()));
                    assert(comps_of(out@) =~= comps_of(before).push(out@.last().comp()));
                } else {
                    assert(out@ == before);
                }
            }
        }
        i = i + 1;
    }
    proof {
        if root {
            assert(components(s@) =~= pre + segment_comps(sv, sv.len() as int, root));
        } else {
            assert(components(s@) =~= pre + segment_comps(sv, sv.len() as int, root));
        }
    }
    out
}

/// The file name of a path.
pub fn path_file_name(s: &[char]) -> (r: Option<Vec<char>>)
    ensures
        match r {
            Some(n) => file_name(s@) == Some(n@),
            None => file_name(s@) is None,
        },
{
    let c = path_components(s);
    assert(c@.len() > 0 ==> comps_of(c@).last() == c@.last().comp());
    if c.len() == 0 {
        return None;
    }
    match &c[c.len() - 1] {
        PathComponent::Normal(n) => Some(crate::text::slice_chars(n, 0, n.len())),
        _ => None,
    }
}

/// Texts of components `from..to`.
pub fn comp_texts(c: &Vec<PathComponent>, from: usize, to: usize) -> (r: Vec<Vec<char>>)
    requires
        from <= to <= c@.len(),
    ensures
        views(r@) == comps_of(c@).subrange(from as int, to as int).map_values(
            |x: PathComp| comp_text(x),
        ),
{
    let mut r: Vec<Vec<char>> = Vec::new();
    let mut i: usize = from;
    while i < to
        invariant
            from <= i <= to <= c@.len(),
            views(r@) == comps_of(c@).subrange(from as int, i as int).map_values(
                |x: PathComp| comp_text(x),
            ),
        decreases to - i,
    {
        let t: Vec<char> = match &c[i] {
            PathComponent::RootDir => Vec::new(),
            PathComponent::CurDir => chars_of("."),
            PathComponent::ParentDir => chars_of(".."),
            PathComponent::Normal(n) => crate::text::slice_chars(n, 0, n.len()),
        };
        proof {
            assert(t@ == comp_text(c@[i as int].comp()));
            assert(views(r@.push(t)) =~= views(r@).push(t@));
            assert(comps_of(c@).subrange(from as int, i + 1).map_values(|x: PathComp| comp_text(x))
                =~= comps_of(c@).subrange(from as int, i as int).map_values(
                |x: PathComp| comp_text(x),
            ).push(comp_text(c@[i as int].comp())));
        }
        r.push(t);
        i = i + 1;
    }
    r
}

/// The parent of a path.
pub fn path_parent(s: &[char]) -> (r: Option<Vec<char>>)
    ensures
        match r {
            Some(p) => parent(s@) == Some(p@),
            None => parent(s@) is None,
        },
{
    let c = path_components(s);
    let n = c.len();
    if n == 0 {
        return None;
    }
    assert(comps_of(c@).last() == c@.last().comp());
    if let PathComponent::RootDir = &c[n - 1] {
        return None;
    }
    let ghost d = comps_of(c@).drop_last();
    assert(d =~= comps_of(c@).subrange(0, n - 1));
    let slash = chars_of("/");
    if n - 1 > 0 {
        if let PathComponent::RootDir = &c[0] {
            let texts = comp_texts(&c, 1, n - 1);
            assert(d.drop_first() =~= comps_of(c@).subrange(1, n - 1));
            let mut out = chars_of("/");
            let j = crate::text::join_vec(&texts, &slash);
            append_chars(&mut out, &j);
            return Some(out);
        }
    }
    let texts = comp_texts(&c, 0, n - 1);
    Some(crate::text::join_vec(&texts, &slash))
}

/// `Path::starts_with`: the components of `base` begin the components of
/// `path`.
pub open spec fn path_starts_with(path: Seq<char>, base: Seq<char>) -> bool {
    let p = components(path);
    let b = components(base);
    b.len() <= p.len() && p.subrange(0, b.len() as int) == b
}

/// Two path components are the same.
pub fn comp_eq(a: &PathComponent, b: &PathComponent) -> (r: bool)
    ensures
        r == (a.comp() == b.comp()),
{
    match (a, b) {
        (PathComponent::RootDir, PathComponent::RootDir) => true,
        (PathComponent::CurDir, PathComponent::CurDir) => true,
        (PathComponent::ParentDir, PathComponent::ParentDir) => true,
        (PathComponent::Normal(x), PathComponent::Normal(y)) => chars_eq(x, y),
        _ => false,
    }
}

/// Whether the components in `c` begin with those in `b`.
pub fn comps_start_with(c: &Vec<PathComponent>, b: &Vec<PathComponent>) -> (r: bool)
    ensures
        r == (b@.len() <= c@.len() && comps_of(c@).subrange(0, b@.len() as int) == comps_of(b@)),
{
    if b.len() > c.len() {
        return false;
    }
    let mut i: usize = 0;
    while i < b.len()
        invariant
            i <= b@.len() <= c@.len(),
            forall|j: int| 0 <= j < i ==> comps_of(c@)[j] == comps_of(b@)[j],
        decreases b.len() - i,
    {
        if !comp_eq(&c[i], &b[i]) {
            assert(comps_of(c@).subrange(0, b@.len() as int)[i as int] != comps_of(b@)[i as int]);
            return false;
        }
        i = i + 1;
    }
    assert(comps_of(c@).subrange(0, b@.len() as int) =~= comps_of(b@));
    true
}

/// `Path::starts_with` on path texts.
pub fn starts_with_path(path: &str, base: &str) -> (r: bool)
    ensures
        r == path_starts_with(path@, base@),
{
    comps_start_with(&path_components(&chars_of(path)), &path_components(&chars_of(base)))
}

/// The components of fewer segments begin those of more.
pub proof fn lemma_segment_comps_prefix(segs: Seq<Seq<char>>, n: int, m: int, root: bool)
    requires
        0 <= n <= m,
    ensures
        segment_comps(segs, n, root).len() <= segment_comps(segs, m, root).len(),
        segment_comps(segs, m, root).subrange(0, segment_comps(segs, n, root).len() as int)
            == segment_comps(segs, n, root),
    decreases m - n,
{
    if n < m {
        lemma_segment_comps_prefix(segs, n, m - 1, root);
        let a = segment_comps(segs, n, root);
        let b = segment_comps(segs, m - 1, root);
        let c = segment_comps(segs, m, root);
        assert(c.subrange(0, b.len() as int) =~= b);
        assert(c.subrange(0, a.len() as int) =~= b.subrange(0, a.len() as int));
    } else {
        assert(segment_comps(segs, m, root).subrange(0, segment_comps(segs, n, root).len() as int)
            =~= segment_comps(segs, n, root));
    }
}

/// Segments appended after the first `n` do not change their components.
pub proof fn lemma_segment_comps_append(s1: Seq<Seq<char>>, s2: Seq<Seq<char>>, n: int, root: bool)
    requires
        0 <= n <= s1.len(),
    ensures
        segment_comps(s1 + s2, n, root) == segment_comps(s1, n, root),
    decreases n,
{
    if n > 0 {
        lemma_segment_comps_append(s1, s2, n - 1, root);
        assert((s1 + s2)[n - 1] == s1[n - 1]);
        assert(segment_comp(s1 + s2, n - 1, root) == segment_comp(s1, n - 1, root));
    }
}

/// Joining a relative path keeps the components of the base in front.
pub proof fn lemma_join_keeps_base(base: Seq<char>, rel: Seq<char>)
    requires
        !is_absolute(rel),
    ensures
        path_starts_with(join(base, rel), base),
{
    let t = join(base, rel);
    if base.len() == 0 {
        assert(split_on(base, '/') =~= seq![Seq::<char>::empty()]) by {
            assert(split_on(base, '/') == Seq::<Seq<char>>::empty().push(Seq::<char>::empty()));
        }
        let sb = split_on(base, '/');
        assert(sb[0].len() == 0);
        assert(segment_comp(sb, 0, false) is None);
        assert(segment_comps(sb, 1, false) =~= segment_comps(sb, 0, false));
        assert(components(base) =~= Seq::<PathComp>::empty());
        assert(components(t).subrange(0, 0) =~= Seq::<PathComp>::empty());
    } else {
        let root = is_absolute(base);
        assert(t[0] == base[0]);
        assert(is_absolute(t) == root);
        let (a, tail) = if base.last() == '/' {
            (base.drop_last(), Seq::<char>::empty())
        } else {
            (base, Seq::<char>::empty())
        };
        if base.last() == '/' {
            assert(base =~= a + seq!['/'] + tail);
            assert(t =~= a + seq!['/'] + rel);
        } else {
            assert("/"@ =~= seq!['/']) by {
                reveal_strlit("/");
            }
            assert(t =~= base + seq!['/'] + rel);
        }
        let sa = split_on(a, '/');
        lemma_split_fold_concat(a, rel, '/', Seq::empty(), Seq::empty());
        assert(split_on(a + seq!['/'] + rel, '/') == sa + split_on(rel, '/'));
        let st = split_on(t, '/');
        assert(st == sa + split_on(rel, '/'));
        let sb = split_on(base, '/');
        if base.last() == '/' {
            lemma_split_fold_concat(a, tail, '/', Seq::empty(), Seq::empty());
            assert(split_on(tail, '/') == Seq::<Seq<char>>::empty().push(Seq::<char>::empty()));
            assert(sb == sa + seq![Seq::<char>::empty()]);
            lemma_segment_comps_append(sa, seq![Seq::<char>::empty()], sa.len() as int, root);
            assert(segment_comp(sb, sa.len() as int, root) is None);
            assert(segment_comps(sb, sb.len() as int, root) == segment_comps(sa, sa.len() as int, root));
        } else {
            assert(sb == sa);
        }
        lemma_segment_comps_append(sa, split_on(rel, '/'), sa.len() as int, root);
        lemma_segment_comps_prefix(st, sa.len() as int, st.len() as int, root);
        let cb = segment_comps(sa, sa.len() as int, root);
        let ct = segment_comps(st, st.len() as int, root);
        assert(ct.subrange(0, cb.len() as int) == cb);
        if root {
            let pre = seq![PathComp::Root];
            assert(components(base) == pre + cb);
            assert(components(t) == pre + ct);
            assert((pre + ct).subrange(0, (pre + cb).len() as int) =~= pre + cb);
        } else {
            assert(components(base) == cb);
            assert(components(t) == ct);
        }
    }
}

} // verus!
