//! Character-level text model: Unicode whitespace, trimming, splitting and
//! joining, stated over `Seq<char>` views.

use vstd::prelude::*;

verus! {

/// Unicode `White_Space` property, as used by `char::is_whitespace`.
pub open spec fn is_ws(c: char) -> bool {
    let n = c as u32;
    ||| (0x09 <= n && n <= 0x0d)
    ||| n == 0x20
    ||| n == 0x85
    ||| n == 0xa0
    ||| n == 0x1680
    ||| (0x2000 <= n && n <= 0x200a)
    ||| n == 0x2028
    ||| n == 0x2029
    ||| n == 0x202f
    ||| n == 0x205f
    ||| n == 0x3000
}

pub fn char_is_ws(c: char) -> (r: bool)
    ensures
        r == is_ws(c),
{
    let n = c as u32;
    (0x09 <= n && n <= 0x0d) || n == 0x20 || n == 0x85 || n == 0xa0 || n == 0x1680 || (0x2000
        <= n && n <= 0x200a) || n == 0x2028 || n == 0x2029 || n == 0x202f || n == 0x205f || n
        == 0x3000
}

/// Index of the first non-whitespace character at or after `i`.
pub open spec fn lead_ws(s: Seq<char>, i: int) -> int
    decreases s.len() - i,
{
    if 0 <= i < s.len() && is_ws(s[i]) {
        lead_ws(s, i + 1)
    } else {
        i
    }
}

/// End of the text once trailing whitespace down to `lo` is removed.
pub open spec fn trail_ws(s: Seq<char>, lo: int, j: int) -> int
    decreases j - lo,
{
    if lo < j && j <= s.len() && is_ws(s[j - 1]) {
        trail_ws(s, lo, j - 1)
    } else {
        j
    }
}

/// `str::trim`: the text without leading and trailing whitespace.
pub open spec fn trim(s: Seq<char>) -> Seq<char> {
    let a = lead_ws(s, 0);
    s.subrange(a, trail_ws(s, a, s.len() as int))
}

/// `str::trim_end`: the text without trailing whitespace.
pub open spec fn trim_end(s: Seq<char>) -> Seq<char> {
    s.subrange(0, trail_ws(s, 0, s.len() as int))
}

pub proof fn lemma_lead_ws_bounds(s: Seq<char>, i: int)
    requires
        0 <= i <= s.len(),
    ensures
        i <= lead_ws(s, i) <= s.len(),
        lead_ws(s, i) < s.len() ==> !is_ws(s[lead_ws(s, i)]),
        forall|k: int| i <= k < lead_ws(s, i) ==> is_ws(#[trigger] s[k]),
    decreases s.len() - i,
{
    if i < s.len() && is_ws(s[i]) {
        lemma_lead_ws_bounds(s, i + 1);
    }
}

pub proof fn lemma_trail_ws_bounds(s: Seq<char>, lo: int, j: int)
    requires
        0 <= lo <= j <= s.len(),
    ensures
        lo <= trail_ws(s, lo, j) <= j,
        lo < trail_ws(s, lo, j) ==> !is_ws(s[trail_ws(s, lo, j) - 1]),
        forall|k: int| trail_ws(s, lo, j) <= k < j ==> is_ws(#[trigger] s[k]),
    decreases j - lo,
{
    if lo < j && is_ws(s[j - 1]) {
        lemma_trail_ws_bounds(s, lo, j - 1);
    }
}

/// A trimmed text is empty or starts and ends with a non-whitespace character.
pub proof fn lemma_trim_shape(s: Seq<char>)
    ensures
        trim(s).len() == 0 || (!is_ws(trim(s)[0]) && !is_ws(trim(s).last())),
        trim(s).len() <= s.len(),
{
    lemma_lead_ws_bounds(s, 0);
    let a = lead_ws(s, 0);
    lemma_trail_ws_bounds(s, a, s.len() as int);
}

/// `String::push`, used to build texts one character at a time.
#[verifier::external_body]
pub(crate) fn push_char(s: &mut String, c: char)
    ensures
        final(s)@ == old(s)@.push(c),
{
    s.push(c);
}

/// The characters of a text, in order.
pub fn chars_of(s: &str) -> (v: Vec<char>)
    ensures
        v@ == s@,
{
    let n = s.unicode_len();
    let mut v: Vec<char> = Vec::new();
    let mut i: usize = 0;
    while i < n
        invariant
            n == s@.len(),
            i <= n,
            v@ == s@.take(i as int),
        decreases n - i,
    {
        let c = s.get_char(i);
        v.push(c);
        i = i + 1;
        assert(v@ =~= s@.take(i as int));
    }
    assert(v@ =~= s@);
    v
}

/// The text made of the given characters.
pub fn string_of(v: &[char]) -> (s: String)
    ensures
        s@ == v@,
{
    let mut s = String::new();
    let mut i: usize = 0;
    while i < v.len()
        invariant
            i <= v.len(),
            s@ == v@.take(i as int),
        decreases v.len() - i,
    {
        push_char(&mut s, v[i]);
        i = i + 1;
        assert(s@ =~= v@.take(i as int));
    }
    assert(s@ =~= v@);
    s
}

/// The characters `v[from..to]`.
pub fn slice_chars(v: &[char], from: usize, to: usize) -> (r: Vec<char>)
    requires
        from <= to <= v.len(),
    ensures
        r@ == v@.subrange(from as int, to as int),
{
    let mut r: Vec<char> = Vec::new();
    let mut i: usize = from;
    while i < to
        invariant
            from <= i <= to <= v.len(),
            r@ == v@.subrange(from as int, i as int),
        decreases to - i,
    {
        r.push(v[i]);
        i = i + 1;
        assert(r@ =~= v@.subrange(from as int, i as int));
    }
    r
}

/// Bounds of the trimmed part of `v`.
pub fn trim_bounds(v: &[char]) -> (r: (usize, usize))
    ensures
        r.0 == lead_ws(v@, 0),
        r.1 == trail_ws(v@, r.0 as int, v@.len() as int),
        r.0 <= r.1 <= v@.len(),
{
    proof {
        lemma_lead_ws_bounds(v@, 0);
    }
    let mut a: usize = 0;
    while a < v.len() && char_is_ws(v[a])
        invariant
            a <= v.len(),
            lead_ws(v@, a as int) == lead_ws(v@, 0),
        decreases v.len() - a,
    {
        a = a + 1;
    }
    let mut b: usize = v.len();
    while b > a && char_is_ws(v[b - 1])
        invariant
            a <= b <= v.len(),
            a == lead_ws(v@, 0),
            trail_ws(v@, a as int, b as int) == trail_ws(v@, a as int, v@.len() as int),
        decreases b - a,
    {
        b = b - 1;
    }
    (a, b)
}

pub fn trim_vec(v: &[char]) -> (r: Vec<char>)
    ensures
        r@ == trim(v@),
{
    let (a, b) = trim_bounds(v);
    slice_chars(v, a, b)
}

pub fn trim_end_vec(v: &[char]) -> (r: Vec<char>)
    ensures
        r@ == trim_end(v@),
{
    let mut b: usize = v.len();
    while b > 0 && char_is_ws(v[b - 1])
        invariant
            b <= v.len(),
            trail_ws(v@, 0, b as int) == trail_ws(v@, 0, v@.len() as int),
        decreases b,
    {
        b = b - 1;
    }
    slice_chars(v, 0, b)
}

/// `str::trim` on a text.
pub fn trim_str(s: &str) -> (r: String)
    ensures
        r@ == trim(s@),
{
    let v = chars_of(s);
    let t = trim_vec(&v);
    string_of(&t)
}

/// Equality of two character sequences.
pub fn chars_eq(a: &[char], b: &[char]) -> (r: bool)
    ensures
        r == (a@ == b@),
{
    if a.len() != b.len() {
        return false;
    }
    let mut i: usize = 0;
    while i < a.len()
        invariant
            a.len() == b.len(),
            i <= a.len(),
            a@.take(i as int) == b@.take(i as int),
        decreases a.len() - i,
    {
        if a[i] != b[i] {
            assert(a@[i as int] != b@[i as int]);
            return false;
        }
        i = i + 1;
        assert(a@.take(i as int) =~= a@.take(i - 1).push(a@[i - 1]));
        assert(b@.take(i as int) =~= b@.take(i - 1).push(b@[i - 1]));
    }
    assert(a@ =~= a@.take(a.len() as int));
    assert(b@ =~= b@.take(b.len() as int));
    true
}

pub open spec fn starts_with(s: Seq<char>, p: Seq<char>) -> bool {
    p.len() <= s.len() && s.take(p.len() as int) == p
}

pub open spec fn ends_with(s: Seq<char>, p: Seq<char>) -> bool {
    p.len() <= s.len() && s.skip(s.len() - p.len()) == p
}

/// `p` occurs in `s` starting at index `i`.
pub open spec fn occurs_at(s: Seq<char>, p: Seq<char>, i: int) -> bool {
    0 <= i && i + p.len() <= s.len() && s.subrange(i, i + p.len()) == p
}

pub open spec fn contains_sub(s: Seq<char>, p: Seq<char>) -> bool {
    exists|i: int| occurs_at(s, p, i)
}

/// Whether `p` occurs in `s` at index `i`.
pub fn occurs_at_exec(s: &[char], p: &[char], i: usize) -> (r: bool)
    ensures
        r == occurs_at(s@, p@, i as int),
{
    if i > s.len() || p.len() > s.len() - i {
        return false;
    }
    let mut k: usize = 0;
    while k < p.len()
        invariant
            i + p.len() <= s.len(),
            k <= p.len(),
            forall|j: int| 0 <= j < k ==> s@[i + j] == p@[j],
        decreases p.len() - k,
    {
        if s[i + k] != p[k] {
            assert(s@.subrange(i as int, i + p.len())[k as int] != p@[k as int]);
            return false;
        }
        k = k + 1;
    }
    assert(s@.subrange(i as int, i + p.len()) =~= p@);
    true
}

pub fn starts_with_vec(s: &[char], p: &[char]) -> (r: bool)
    ensures
        r == starts_with(s@, p@),
{
    let r = occurs_at_exec(s, p, 0);
    assert(s@.subrange(0, p@.len() as int) == s@.take(p@.len() as int));
    r
}

pub fn ends_with_vec(s: &[char], p: &[char]) -> (r: bool)
    ensures
        r == ends_with(s@, p@),
{
    if p.len() > s.len() {
        return false;
    }
    let r = occurs_at_exec(s, p, s.len() - p.len());
    assert(s@.subrange(s@.len() - p@.len(), s@.len() as int) == s@.skip(s@.len() - p@.len()));
    r
}

pub fn contains_vec(s: &[char], p: &[char]) -> (r: bool)
    ensures
        r == contains_sub(s@, p@),
{
    if p.len() > s.len() {
        assert forall|i: int| !occurs_at(s@, p@, i) by {}
        return false;
    }
    let last = s.len() - p.len();
    let mut i: usize = 0;
    loop
        invariant
            p.len() <= s.len(),
            last == s.len() - p.len(),
            i <= last,
            forall|j: int| 0 <= j < i ==> !occurs_at(s@, p@, j),
        decreases last - i,
    {
        if occurs_at_exec(s, p, i) {
            return true;
        }
        if i == last {
            assert forall|j: int| !occurs_at(s@, p@, j) by {
                if 0 <= j <= last {
                }
            }
            return false;
        }
        i = i + 1;
    }
}

/// `s.split(c)`: the pieces of `s` between occurrences of `c`, scanned left
/// to right; `cur` is the piece being read and `acc` the finished pieces.
pub open spec fn split_fold(
    s: Seq<char>,
    c: char,
    i: int,
    cur: Seq<char>,
    acc: Seq<Seq<char>>,
) -> Seq<Seq<char>>
    decreases s.len() - i,
{
    if i < 0 || i >= s.len() {
        acc.push(cur)
    } else if s[i] == c {
        split_fold(s, c, i + 1, Seq::empty(), acc.push(cur))
    } else {
        split_fold(s, c, i + 1, cur.push(s[i]), acc)
    }
}

/// `str::split` with a single-character separator.
pub open spec fn split_on(s: Seq<char>, c: char) -> Seq<Seq<char>> {
    split_fold(s, c, 0, Seq::empty(), Seq::empty())
}

/// Views of a vector of character vectors.
pub open spec fn views(v: Seq<Vec<char>>) -> Seq<Seq<char>> {
    v.map_values(|x: Vec<char>| x@)
}

pub fn split_vec(s: &[char], c: char) -> (r: Vec<Vec<char>>)
    ensures
        views(r@) == split_on(s@, c),
        r@.len() >= 1,
{
    let mut acc: Vec<Vec<char>> = Vec::new();
    let mut cur: Vec<char> = Vec::new();
    let mut i: usize = 0;
    assert(views(acc@) =~= Seq::<Seq<char>>::empty());
    assert(cur@ =~= Seq::<char>::empty());
    while i < s.len()
        invariant
            i <= s.len(),
            split_fold(s@, c, i as int, cur@, views(acc@)) == split_on(s@, c),
        decreases s.len() - i,
    {
        if s[i] == c {
            let done = cur;
            proof {
                assert(views(acc@).push(done@) =~= views(acc@.push(done)));
            }
            acc.push(done);
            cur = Vec::new();
            proof {
                assert(cur@ =~= Seq::<char>::empty());
            }
        } else {
            cur.push(s[i]);
        }
        i = i + 1;
    }
    proof {
        assert(views(acc@).push(cur@) =~= views(acc@.push(cur)));
    }
    acc.push(cur);
    acc
}

/// Pieces joined with a separator text, as `[T]::join`.
pub open spec fn join_with(parts: Seq<Seq<char>>, sep: Seq<char>) -> Seq<char>
    decreases parts.len(),
{
    if parts.len() == 0 {
        Seq::empty()
    } else if parts.len() == 1 {
        parts[0]
    } else {
        join_with(parts.drop_last(), sep) + sep + parts.last()
    }
}

pub fn join_vec(parts: &Vec<Vec<char>>, sep: &[char]) -> (r: Vec<char>)
    ensures
        r@ == join_with(views(parts@), sep@),
{
    let mut r: Vec<char> = Vec::new();
    let mut i: usize = 0;
    while i < parts.len()
        invariant
            i <= parts.len(),
            r@ == join_with(views(parts@).take(i as int), sep@),
        decreases parts.len() - i,
    {
        let ghost before = r@;
        if i > 0 {
            append_chars(&mut r, sep);
        }
        append_chars(&mut r, &parts[i]);
        proof {
            let t = views(parts@).take(i + 1);
            assert(t.drop_last() =~= views(parts@).take(i as int));
            assert(t.last() == parts@[i as int]@);
            if i == 0 {
                assert(r@ =~= t[0]);
            } else {
                assert(r@ =~= before + sep@ + t.last());
            }
        }
        i = i + 1;
    }
    assert(views(parts@).take(parts.len() as int) =~= views(parts@));
    r
}

/// Appends the characters of `b` to `a`.
pub fn append_chars(a: &mut Vec<char>, b: &[char])
    ensures
        final(a)@ == old(a)@ + b@,
{
    let mut i: usize = 0;
    let ghost start = a@;
    while i < b.len()
        invariant
            i <= b.len(),
            a@ == start + b@.take(i as int),
        decreases b.len() - i,
    {
        a.push(b[i]);
        i = i + 1;
        assert(a@ =~= start + b@.take(i as int));
    }
    assert(b@.take(b.len() as int) =~= b@);
}

pub open spec fn has_char(s: Seq<char>, c: char) -> bool {
    exists|i: int| 0 <= i < s.len() && s[i] == c
}

pub fn has_char_vec(s: &[char], c: char) -> (r: bool)
    ensures
        r == has_char(s@, c),
{
    let mut i: usize = 0;
    while i < s.len()
        invariant
            i <= s.len(),
            forall|j: int| 0 <= j < i ==> s@[j] != c,
        decreases s.len() - i,
    {
        if s[i] == c {
            return true;
        }
        i = i + 1;
    }
    false
}

/// The view of an optional text.
pub open spec fn opt_view(o: Option<String>) -> Option<Seq<char>> {
    match o {
        Some(t) => Some(t@),
        None => None,
    }
}

/// Index of the first character at or after `i` that is not `c`.
pub open spec fn lead_char(s: Seq<char>, c: char, i: int) -> int
    decreases s.len() - i,
{
    if 0 <= i < s.len() && s[i] == c {
        lead_char(s, c, i + 1)
    } else {
        i
    }
}

/// End of the text once trailing `c` characters down to `lo` are removed.
pub open spec fn trail_char(s: Seq<char>, c: char, lo: int, j: int) -> int
    decreases j - lo,
{
    if lo < j && j <= s.len() && s[j - 1] == c {
        trail_char(s, c, lo, j - 1)
    } else {
        j
    }
}

/// `str::trim_matches(c)`: the text without leading and trailing `c`.
pub open spec fn trim_char(s: Seq<char>, c: char) -> Seq<char> {
    let a = lead_char(s, c, 0);
    s.subrange(a, trail_char(s, c, a, s.len() as int))
}

/// `str::trim_end_matches(c)`: the text without trailing `c`.
pub open spec fn trim_end_char(s: Seq<char>, c: char) -> Seq<char> {
    s.subrange(0, trail_char(s, c, 0, s.len() as int))
}

pub proof fn lemma_lead_char_bounds(s: Seq<char>, c: char, i: int)
    requires
        0 <= i <= s.len(),
    ensures
        i <= lead_char(s, c, i) <= s.len(),
    decreases s.len() - i,
{
    if i < s.len() && s[i] == c {
        lemma_lead_char_bounds(s, c, i + 1);
    }
}

pub proof fn lemma_trail_char_bounds(s: Seq<char>, c: char, lo: int, j: int)
    requires
        0 <= lo <= j <= s.len(),
    ensures
        lo <= trail_char(s, c, lo, j) <= j,
    decreases j - lo,
{
    if lo < j && s[j - 1] == c {
        lemma_trail_char_bounds(s, c, lo, j - 1);
    }
}

pub fn trim_char_vec(v: &[char], c: char) -> (r: Vec<char>)
    ensures
        r@ == trim_char(v@, c),
{
    proof {
        lemma_lead_char_bounds(v@, c, 0);
    }
    let mut a: usize = 0;
    while a < v.len() && v[a] == c
        invariant
            a <= v.len(),
            lead_char(v@, c, a as int) == lead_char(v@, c, 0),
        decreases v.len() - a,
    {
        a = a + 1;
    }
    let mut b: usize = v.len();
    while b > a && v[b - 1] == c
        invariant
            a <= b <= v.len(),
            a == lead_char(v@, c, 0),
            trail_char(v@, c, a as int, b as int) == trail_char(v@, c, a as int, v@.len() as int),
        decreases b - a,
    {
        b = b - 1;
    }
    slice_chars(v, a, b)
}

pub fn trim_end_char_vec(v: &[char], c: char) -> (r: Vec<char>)
    ensures
        r@ == trim_end_char(v@, c),
{
    let mut b: usize = v.len();
    while b > 0 && v[b - 1] == c
        invariant
            b <= v.len(),
            trail_char(v@, c, 0, b as int) == trail_char(v@, c, 0, v@.len() as int),
        decreases b,
    {
        b = b - 1;
    }
    slice_chars(v, 0, b)
}

/// Index of the first `c` at or after `i`, or the length when there is none.
pub open spec fn find_char(s: Seq<char>, c: char, i: int) -> int
    decreases s.len() - i,
{
    if 0 <= i < s.len() && s[i] != c {
        find_char(s, c, i + 1)
    } else {
        i
    }
}

/// `s.split(c).next()`: the text before the first `c`.
pub open spec fn before_char(s: Seq<char>, c: char) -> Seq<char> {
    s.take(find_char(s, c, 0))
}

pub proof fn lemma_find_char_bounds(s: Seq<char>, c: char, i: int)
    requires
        0 <= i <= s.len(),
    ensures
        i <= find_char(s, c, i) <= s.len(),
    decreases s.len() - i,
{
    if i < s.len() && s[i] != c {
        lemma_find_char_bounds(s, c, i + 1);
    }
}

pub fn before_char_vec(v: &[char], c: char) -> (r: Vec<char>)
    ensures
        r@ == before_char(v@, c),
{
    proof {
        lemma_find_char_bounds(v@, c, 0);
    }
    let mut k: usize = 0;
    while k < v.len() && v[k] != c
        invariant
            k <= v.len(),
            find_char(v@, c, k as int) == find_char(v@, c, 0),
        decreases v.len() - k,
    {
        k = k + 1;
    }
    slice_chars(v, 0, k)
}

/// `str::trim_end_matches(p)` for a text pattern: every trailing copy of `p`
/// removed.
pub open spec fn strip_suffix_all(s: Seq<char>, p: Seq<char>) -> Seq<char>
    decreases s.len(),
{
    if p.len() > 0 && ends_with(s, p) {
        strip_suffix_all(s.take(s.len() - p.len()), p)
    } else {
        s
    }
}

pub fn strip_suffix_all_vec(v: &[char], p: &[char]) -> (r: Vec<char>)
    ensures
        r@ == strip_suffix_all(v@, p@),
{
    let mut cur: Vec<char> = slice_chars(v, 0, v.len());
    assert(cur@ =~= v@);
    if p.len() == 0 {
        return cur;
    }
    while ends_with_vec(&cur, p)
        invariant
            p@.len() > 0,
            strip_suffix_all(cur@, p@) == strip_suffix_all(v@, p@),
        decreases cur@.len(),
    {
        let n = cur.len() - p.len();
        cur = slice_chars(&cur, 0, n);
    }
    cur
}

/// Keeps the elements of `parts` that satisfy `keep`, in order.
pub open spec fn kept(parts: Seq<Seq<char>>, keep: spec_fn(Seq<char>) -> bool) -> Seq<Seq<char>>
    decreases parts.len(),
{
    if parts.len() == 0 {
        Seq::empty()
    } else {
        let k = kept(parts.drop_last(), keep);
        if keep(parts.last()) {
            k.push(parts.last())
        } else {
            k
        }
    }
}

/// A text made of the given literal characters.
pub open spec fn lit(s: &str) -> Seq<char> {
    s@
}

/// The pieces of `v` from index `from` on.
pub fn skip_vecs(v: &Vec<Vec<char>>, from: usize) -> (r: Vec<Vec<char>>)
    requires
        from <= v@.len(),
    ensures
        views(r@) == views(v@).skip(from as int),
{
    let mut r: Vec<Vec<char>> = Vec::new();
    let mut i: usize = from;
    assert(views(r@) =~= views(v@).subrange(from as int, from as int));
    while i < v.len()
        invariant
            from <= i <= v@.len(),
            views(r@) == views(v@).subrange(from as int, i as int),
        decreases v.len() - i,
    {
        let copy = slice_chars(&v[i], 0, v[i].len());
        proof {
            assert(copy@ =~= v@[i as int]@);
            assert(views(r@.push(copy)) =~= views(r@).push(copy@));
            assert(views(v@).subrange(from as int, i + 1) =~= views(v@).subrange(
                from as int,
                i as int,
            ).push(views(v@)[i as int]));
        }
        r.push(copy);
        i = i + 1;
    }
    assert(views(v@).subrange(from as int, v@.len() as int) =~= views(v@).skip(from as int));
    r
}

/// The decimal digit character of `d < 10`.
pub open spec fn digit_char(d: nat) -> char {
    if d == 0 { '0' } else if d == 1 { '1' } else if d == 2 { '2' } else if d == 3 { '3' }
    else if d == 4 { '4' } else if d == 5 { '5' } else if d == 6 { '6' } else if d == 7 { '7' }
    else if d == 8 { '8' } else { '9' }
}

/// Decimal text of a natural number, as `to_string` renders it.
pub open spec fn decimal(n: nat) -> Seq<char>
    decreases n,
{
    if n < 10 {
        seq![digit_char(n)]
    } else {
        decimal(n / 10).push(digit_char(n % 10))
    }
}

fn digit_of(d: u64) -> (c: char)
    requires
        d < 10,
    ensures
        c == digit_char(d as nat),
{
    if d == 0 { '0' } else if d == 1 { '1' } else if d == 2 { '2' } else if d == 3 { '3' }
    else if d == 4 { '4' } else if d == 5 { '5' } else if d == 6 { '6' } else if d == 7 { '7' }
    else if d == 8 { '8' } else { '9' }
}

/// Decimal text of a number.
pub fn decimal_text(n: u64) -> (r: Vec<char>)
    ensures
        r@ == decimal(n as nat),
    decreases n,
{
    if n < 10 {
        let mut r: Vec<char> = Vec::new();
        r.push(digit_of(n));
        assert(r@ =~= seq![digit_char(n as nat)]);
        r
    } else {
        let mut r = decimal_text(n / 10);
        r.push(digit_of(n % 10));
        r
    }
}

/// `char::is_alphanumeric` (Unicode alphabetic or numeric).
pub uninterp spec fn alphanumeric(c: char) -> bool;

/// `char::is_alphanumeric`. For ASCII characters it holds exactly of letters
/// and digits.
#[verifier::external_body]
pub(crate) fn char_is_alphanumeric(c: char) -> (r: bool)
    ensures
        r == alphanumeric(c),
        (c as u32) < 0x80 ==> (r <==> (('a' <= c && c <= 'z') || ('A' <= c && c <= 'Z') || ('0' <= c
            && c <= '9'))),
{
    c.is_alphanumeric()
}


/// The finished pieces of a split come first, unchanged.
pub proof fn lemma_split_fold_acc(s: Seq<char>, c: char, i: int, cur: Seq<char>, acc: Seq<Seq<char>>)
    ensures
        split_fold(s, c, i, cur, acc) == acc + split_fold(s, c, i, cur, Seq::empty()),
    decreases s.len() - i,
{
    if i < 0 || i >= s.len() {
        assert(acc.push(cur) =~= acc + Seq::<Seq<char>>::empty().push(cur));
    } else if s[i] == c {
        lemma_split_fold_acc(s, c, i + 1, Seq::empty(), acc.push(cur));
        lemma_split_fold_acc(s, c, i + 1, Seq::empty(), Seq::<Seq<char>>::empty().push(cur));
        assert(acc.push(cur) =~= acc + Seq::<Seq<char>>::empty().push(cur));
        assert(acc.push(cur) + split_fold(s, c, i + 1, Seq::empty(), Seq::empty()) =~= acc + (
        Seq::<Seq<char>>::empty().push(cur) + split_fold(s, c, i + 1, Seq::empty(), Seq::empty())));
    } else {
        lemma_split_fold_acc(s, c, i + 1, cur.push(s[i]), acc);
        lemma_split_fold_acc(s, c, i + 1, cur.push(s[i]), Seq::empty());
    }
}

/// A split from position `i` is the split of the rest of the text.
pub proof fn lemma_split_fold_shift(s: Seq<char>, c: char, i: int, cur: Seq<char>, acc: Seq<Seq<char>>)
    requires
        0 <= i <= s.len(),
    ensures
        split_fold(s, c, i, cur, acc) == split_fold(s.skip(i), c, 0, cur, acc),
    decreases s.len() - i,
{
    let t = s.skip(i);
    if i < s.len() {
        assert(t[0] == s[i]);
        assert(t.skip(1) =~= s.skip(i + 1));
        if s[i] == c {
            lemma_split_fold_shift(s, c, i + 1, Seq::empty(), acc.push(cur));
            lemma_split_fold_shift(t, c, 1, Seq::empty(), acc.push(cur));
        } else {
            lemma_split_fold_shift(s, c, i + 1, cur.push(s[i]), acc);
            lemma_split_fold_shift(t, c, 1, cur.push(s[i]), acc);
        }
    }
}

/// Splitting `a`, the separator and `b` splits `a`, then `b`.
pub proof fn lemma_split_fold_concat(a: Seq<char>, b: Seq<char>, c: char, cur: Seq<char>, acc: Seq<Seq<char>>)
    ensures
        split_fold(a + seq![c] + b, c, 0, cur, acc) == split_fold(a, c, 0, cur, acc) + split_on(b, c),
    decreases a.len(),
{
    let s = a + seq![c] + b;
    if a.len() == 0 {
        assert(s[0] == c);
        lemma_split_fold_shift(s, c, 1, Seq::empty(), acc.push(cur));
        assert(s.skip(1) =~= b);
        lemma_split_fold_acc(b, c, 0, Seq::empty(), acc.push(cur));
    } else {
        let x = a[0];
        let rest = a.drop_first();
        assert(s[0] == x);
        assert(s.skip(1) =~= rest + seq![c] + b);
        assert(a.skip(1) =~= rest);
        if x == c {
            lemma_split_fold_shift(s, c, 1, Seq::empty(), acc.push(cur));
            lemma_split_fold_shift(a, c, 1, Seq::empty(), acc.push(cur));
            lemma_split_fold_concat(rest, b, c, Seq::empty(), acc.push(cur));
        } else {
            lemma_split_fold_shift(s, c, 1, cur.push(x), acc);
            lemma_split_fold_shift(a, c, 1, cur.push(x), acc);
            lemma_split_fold_concat(rest, b, c, cur.push(x), acc);
        }
    }
}

/// A text without the separator splits into one piece after `cur`.
pub proof fn lemma_split_fold_plain(p: Seq<char>, c: char, cur: Seq<char>, acc: Seq<Seq<char>>)
    requires
        !has_char(p, c),
    ensures
        split_fold(p, c, 0, cur, acc) == acc.push(cur + p),
    decreases p.len(),
{
    if p.len() == 0 {
        assert(cur + p =~= cur);
    } else {
        let rest = p.drop_first();
        assert(p[0] != c);
        assert(!has_char(rest, c)) by {
            if has_char(rest, c) {
                let k = choose|k: int| 0 <= k < rest.len() && rest[k] == c;
                assert(p[k + 1] == c);
            }
        }
        lemma_split_fold_shift(p, c, 1, cur.push(p[0]), acc);
        assert(p.skip(1) =~= rest);
        lemma_split_fold_plain(rest, c, cur.push(p[0]), acc);
        assert(cur.push(p[0]) + rest =~= cur + p);
    }
}

/// Pieces without the separator, joined with it, split back into the same
/// pieces.
pub proof fn lemma_split_join(parts: Seq<Seq<char>>, c: char)
    requires
        parts.len() >= 1,
        forall|i: int| 0 <= i < parts.len() ==> !has_char(#[trigger] parts[i], c),
    ensures
        split_on(join_with(parts, seq![c]), c) == parts,
    decreases parts.len(),
{
    if parts.len() == 1 {
        lemma_split_fold_plain(parts[0], c, Seq::empty(), Seq::empty());
        assert(Seq::<char>::empty() + parts[0] =~= parts[0]);
        assert(Seq::<Seq<char>>::empty().push(parts[0]) =~= parts);
    } else {
        let front = parts.drop_last();
        assert forall|i: int| 0 <= i < front.len() implies !has_char(#[trigger] front[i], c) by {
            assert(front[i] == parts[i]);
        }
        lemma_split_join(front, c);
        lemma_split_fold_concat(join_with(front, seq![c]), parts.last(), c, Seq::empty(), Seq::empty());
        lemma_split_fold_plain(parts.last(), c, Seq::empty(), Seq::empty());
        assert(Seq::<char>::empty() + parts.last() =~= parts.last());
        assert(front + Seq::<Seq<char>>::empty().push(parts.last()) =~= parts);
    }
}


/// No piece of a split holds the separator.
pub proof fn lemma_split_fold_pieces(s: Seq<char>, c: char, i: int, cur: Seq<char>, acc: Seq<Seq<char>>)
    requires
        !has_char(cur, c),
        forall|k: int| 0 <= k < acc.len() ==> !has_char(#[trigger] acc[k], c),
    ensures
        forall|k: int|
            0 <= k < split_fold(s, c, i, cur, acc).len() ==> !has_char(
                #[trigger] split_fold(s, c, i, cur, acc)[k],
                c,
            ),
    decreases s.len() - i,
{
    if i < 0 || i >= s.len() {
        assert(split_fold(s, c, i, cur, acc) == acc.push(cur));
        assert forall|k: int| 0 <= k < acc.push(cur).len() implies !has_char(#[trigger] acc.push(cur)[k], c) by {
            if k < acc.len() {
                assert(acc.push(cur)[k] == acc[k]);
            }
        }
    } else if s[i] == c {
        assert(split_fold(s, c, i, cur, acc) == split_fold(s, c, i + 1, Seq::empty(), acc.push(cur)));
        assert forall|k: int| 0 <= k < acc.push(cur).len() implies !has_char(#[trigger] acc.push(cur)[k], c) by {
            if k < acc.len() {
                assert(acc.push(cur)[k] == acc[k]);
            }
        }
        assert(!has_char(Seq::<char>::empty(), c));
        lemma_split_fold_pieces(s, c, i + 1, Seq::empty(), acc.push(cur));
    } else {
        assert(!has_char(cur.push(s[i]), c)) by {
            if has_char(cur.push(s[i]), c) {
                let k = choose|k: int| 0 <= k < cur.push(s[i]).len() && cur.push(s[i])[k] == c;
                if k < cur.len() {
                    assert(cur[k] == c);
                }
            }
        }
        assert(split_fold(s, c, i, cur, acc) == split_fold(s, c, i + 1, cur.push(s[i]), acc));
        lemma_split_fold_pieces(s, c, i + 1, cur.push(s[i]), acc);
    }
}

/// Every kept piece is a piece that was offered and that `keep` accepts.
pub proof fn lemma_kept_from(parts: Seq<Seq<char>>, keep: spec_fn(Seq<char>) -> bool)
    ensures
        forall|i: int|
            0 <= i < kept(parts, keep).len() ==> keep(#[trigger] kept(parts, keep)[i]) && parts.contains(
                kept(parts, keep)[i],
            ),
    decreases parts.len(),
{
    if parts.len() > 0 {
        let front = parts.drop_last();
        lemma_kept_from(front, keep);
        let k = kept(parts, keep);
        let kf = kept(front, keep);
        assert forall|i: int| 0 <= i < k.len() implies keep(#[trigger] k[i]) && parts.contains(k[i]) by {
            if i < kf.len() {
                assert(k[i] == kf[i]);
                assert(front.contains(kf[i]));
                let j = choose|j: int| 0 <= j < front.len() && front[j] == kf[i];
                assert(parts[j] == front[j]);
            } else {
                assert(keep(parts.last()));
                assert(k[i] == parts[parts.len() - 1]);
            }
        }
    } else {
        assert(kept(parts, keep).len() == 0);
    }
}

/// A joined text starts with the first piece.
pub proof fn lemma_join_starts(parts: Seq<Seq<char>>, sep: Seq<char>)
    requires
        parts.len() >= 1,
    ensures
        join_with(parts, sep).len() >= parts[0].len(),
        forall|k: int| 0 <= k < parts[0].len() ==> join_with(parts, sep)[k] == parts[0][k],
    decreases parts.len(),
{
    if parts.len() > 1 {
        let front = parts.drop_last();
        lemma_join_starts(front, sep);
        assert(front[0] == parts[0]);
    }
}


/// Trimming a trimmed text changes nothing.
pub proof fn lemma_trim_idempotent(s: Seq<char>)
    ensures
        trim(trim(s)) == trim(s),
{
    lemma_trim_shape(s);
    let t = trim(s);
    if t.len() > 0 {
        assert(lead_ws(t, 0) == 0);
        lemma_trail_ws_bounds(t, 0, t.len() as int);
        assert(trail_ws(t, 0, t.len() as int) == t.len());
        assert(t.subrange(0, t.len() as int) =~= t);
    } else {
        assert(trim(t) =~= t);
    }
}


/// The lower-case form of a text, as `str::to_lowercase` gives it.
pub uninterp spec fn lowercase(s: Seq<char>) -> Seq<char>;

/// `str::to_lowercase`: Unicode lower-casing of every character.
#[verifier::external_body]
pub(crate) fn to_lowercase_text(s: &str) -> (r: String)
    ensures
        r@ == lowercase(s@),
{
    s.to_lowercase()
}

} // verus!
