//! Memory context assembly: global, project and session memory sections
//! fitted into a token budget, with a stable revision of what was used.

use vstd::prelude::*;
use vstd::utf8::{encode_scalar, encode_utf8};
use crate::order::{lemma_lex_antisym, lemma_lex_range, lemma_lex_trans, lemma_lex_zero, lex_compare, lex_order};
use crate::hashing::{sha256_hex, sha256_hex_of};
use crate::models::clone_opt;
use crate::text::{
    lowercase, to_lowercase_text, lemma_trail_ws_bounds, trail_ws, decimal, decimal_text, opt_view,
    append_chars, char_is_ws, chars_of, contains_sub, contains_vec, find_char, is_ws, join_vec,
    join_with, lemma_find_char_bounds, slice_chars, string_of, trim_end, trim_end_vec, views,
};

verus! {

/// Estimated tokens of a text: a quarter of its characters, rounded up.
pub open spec fn estimated_tokens(s: Seq<char>) -> nat {
    ((s.len() + 3) / 4) as nat
}

pub fn estimate_context_tokens(text: &str) -> (r: usize)
    ensures
        r == estimated_tokens(text@),
{
    let n = text.unicode_len();
    n / 4 + if n % 4 != 0 {
        1
    } else {
        0
    }
}

/// Length of a text in UTF-8 bytes.
pub open spec fn byte_len(s: Seq<char>) -> nat {
    encode_utf8(s).len()
}

/// The first line of a text, as `str::lines` yields it: the text before the
/// first `\n`, without a `\r` right before that `\n`.
pub open spec fn first_line(s: Seq<char>) -> Seq<char> {
    let k = find_char(s, '\n', 0);
    if k < s.len() && k > 0 && s[k - 1] == '\r' {
        s.take(k - 1)
    } else {
        s.take(k)
    }
}

/// At most the first `n` characters.
pub open spec fn take_at_most(s: Seq<char>, n: nat) -> Seq<char> {
    if s.len() <= n {
        s
    } else {
        s.take(n as int)
    }
}

/// `remaining * 4`, saturating at `usize::MAX`.
pub open spec fn char_allowance(remaining: nat) -> nat {
    if remaining * 4 > usize::MAX {
        usize::MAX as nat
    } else {
        remaining * 4
    }
}

/// A section fitted into what is left of the budget: whole when its estimate
/// fits; else its first line and as much of the rest as `4` characters per
/// remaining token allow, with trailing whitespace removed; nothing when no
/// budget is left.
pub open spec fn fitted_section(content: Seq<char>, budget: nat, used: nat) -> Option<Seq<char>> {
    let remaining: nat = if used >= budget {
        0
    } else {
        (budget - used) as nat
    };
    if remaining == 0 {
        None
    } else if estimated_tokens(content) <= remaining {
        Some(content)
    } else {
        let max_chars = char_allowance(remaining);
        let prefix = first_line(content);
        if max_chars <= byte_len(prefix) + 1 {
            Some(take_at_most(prefix, max_chars))
        } else {
            let body_limit = (max_chars - byte_len(prefix) - 1) as nat;
            let body = take_at_most(content.skip(prefix.len() as int), body_limit);
            Some(prefix + "\n"@ + trim_end(body))
        }
    }
}

fn take_chars(v: &[char], n: usize) -> (r: Vec<char>)
    ensures
        r@ == take_at_most(v@, n as nat),
{
    if v.len() <= n {
        slice_chars(v, 0, v.len())
    } else {
        slice_chars(v, 0, n)
    }
}

pub fn fit_context_section(content: &str, budget: usize, used: usize) -> (r: Option<String>)
    ensures
        match r {
            Some(t) => fitted_section(content@, budget as nat, used as nat) == Some(t@),
            None => fitted_section(content@, budget as nat, used as nat) is None,
        },
{
    let remaining: usize = if used >= budget {
        0
    } else {
        budget - used
    };
    if remaining == 0 {
        return None;
    }
    if estimate_context_tokens(content) <= remaining {
        return Some(string_of(&chars_of(content)));
    }
    let max_chars: usize = if remaining > usize::MAX / 4 {
        usize::MAX
    } else {
        remaining * 4
    };
    let v = chars_of(content);
    proof {
        lemma_find_char_bounds(v@, '\n', 0);
    }
    let mut k: usize = 0;
    while k < v.len() && v[k] != '\n'
        invariant
            k <= v.len(),
            find_char(v@, '\n', k as int) == find_char(v@, '\n', 0),
        decreases v.len() - k,
    {
        k = k + 1;
    }
    let pend: usize = if k < v.len() && k > 0 && v[k - 1] == '\r' {
        k - 1
    } else {
        k
    };
    let prefix = slice_chars(&v, 0, pend);
    let prefix_text = string_of(&prefix);
    let plen = prefix_text.as_str().as_bytes().len();
    assert(plen == byte_len(prefix@));
    if max_chars - 1 <= plen {
        return Some(string_of(&take_chars(&prefix, max_chars)));
    }
    let body_limit = max_chars - plen - 1;
    let rest = slice_chars(&v, pend, v.len());
    assert(rest@ =~= v@.skip(prefix@.len() as int));
    let body = trim_end_vec(&take_chars(&rest, body_limit));
    let mut out = prefix;
    out.push('\n');
    append_chars(&mut out, &body);
    assert(out@ =~= prefix@ + "\n"@ + body@) by {
        reveal_strlit("\n");
    }
    Some(string_of(&out))
}

/// `- value` lines, or `- none` for no values.
pub open spec fn bullets(values: Seq<Seq<char>>) -> Seq<char> {
    if values.len() == 0 {
        "- none"@
    } else {
        join_with(values.map_values(|v: Seq<char>| "- "@ + v), "\n"@)
    }
}

/// Views of a sequence of texts.
pub open spec fn text_views(v: Seq<String>) -> Seq<Seq<char>> {
    v.map_values(|x: String| x@)
}

pub fn bullet_lines(values: &[String]) -> (r: String)
    ensures
        r@ == bullets(text_views(values@)),
{
    if values.len() == 0 {
        return String::from_str("- none");
    }
    let ghost vals = text_views(values@);
    let mut lines: Vec<Vec<char>> = Vec::new();
    let mut i: usize = 0;
    while i < values.len()
        invariant
            i <= values@.len(),
            vals == text_views(values@),
            views(lines@) == vals.take(i as int).map_values(|v: Seq<char>| "- "@ + v),
        decreases values.len() - i,
    {
        let mut line = chars_of("- ");
        append_chars(&mut line, &chars_of(values[i].as_str()));
        proof {
            assert(views(lines@.push(line)) =~= views(lines@).push(line@));
            assert(vals.take(i + 1).map_values(|v: Seq<char>| "- "@ + v) =~= vals.take(
                i as int,
            ).map_values(|v: Seq<char>| "- "@ + v).push("- "@ + vals[i as int]));
        }
        lines.push(line);
        i = i + 1;
    }
    assert(vals.take(values@.len() as int) =~= vals);
    string_of(&join_vec(&lines, &chars_of("\n")))
}


/// Status of a session memory.
#[derive(Debug, Clone, Copy, PartialEq, Eq, Structural)]
pub enum SessionMemoryStatus {
    Active,
    Superseded,
}

/// A distilled memory of one conversation session.
pub struct SessionMemory {
    pub id: String,
    pub status: SessionMemoryStatus,
    pub source_revision: i64,
    pub summary: String,
    pub goal: String,
    pub result: String,
    pub topics: Vec<String>,
    pub decisions: Vec<String>,
    pub verification: Vec<String>,
    pub follow_up: Vec<String>,
}

/// Whitespace-separated words of `s[i..]`, given the word being read and
/// the words read so far (`str::split_whitespace`).
pub open spec fn words_from(s: Seq<char>, i: int, cur: Seq<char>, acc: Seq<Seq<char>>) -> Seq<Seq<char>>
    decreases s.len() - i,
{
    if i < 0 || i >= s.len() {
        if cur.len() > 0 {
            acc.push(cur)
        } else {
            acc
        }
    } else if is_ws(s[i]) {
        words_from(s, i + 1, Seq::empty(), if cur.len() > 0 {
            acc.push(cur)
        } else {
            acc
        })
    } else {
        words_from(s, i + 1, cur.push(s[i]), acc)
    }
}

pub open spec fn words(s: Seq<char>) -> Seq<Seq<char>> {
    words_from(s, 0, Seq::empty(), Seq::empty())
}

/// Search terms of a query: its words, lower-cased, longer than one byte.
pub open spec fn search_terms(query: Seq<char>) -> Seq<Seq<char>> {
    words(query).map_values(|w: Seq<char>| lowercase(w)).filter(|t: Seq<char>| byte_len(t) > 1)
}

fn query_words(q: &[char]) -> (r: Vec<Vec<char>>)
    ensures
        views(r@) == words(q@),
{
    let mut acc: Vec<Vec<char>> = Vec::new();
    let mut cur: Vec<char> = Vec::new();
    let mut i: usize = 0;
    assert(views(acc@) =~= Seq::<Seq<char>>::empty());
    assert(cur@ =~= Seq::<char>::empty());
    while i < q.len()
        invariant
            i <= q.len(),
            words_from(q@, i as int, cur@, views(acc@)) == words(q@),
        decreases q.len() - i,
    {
        if char_is_ws(q[i]) {
            if cur.len() > 0 {
                let done = cur;
                assert(views(acc@.push(done)) =~= views(acc@).push(done@));
                acc.push(done);
            }
            cur = Vec::new();
            assert(cur@ =~= Seq::<char>::empty());
        } else {
            cur.push(q[i]);
        }
        i = i + 1;
    }
    if cur.len() > 0 {
        let done = cur;
        assert(views(acc@.push(done)) =~= views(acc@).push(done@));
        acc.push(done);
    }
    acc
}

pub fn query_terms(query: &str) -> (r: Vec<Vec<char>>)
    ensures
        views(r@) == search_terms(query@),
{
    let ws = query_words(&chars_of(query));
    let ghost lowered = views(ws@).map_values(|w: Seq<char>| lowercase(w));
    let mut out: Vec<Vec<char>> = Vec::new();
    let mut i: usize = 0;
    assert(lowered.take(0).filter(|t: Seq<char>| byte_len(t) > 1) =~= Seq::<Seq<char>>::empty());
    while i < ws.len()
        invariant
            i <= ws@.len(),
            lowered == views(ws@).map_values(|w: Seq<char>| lowercase(w)),
            views(out@) == lowered.take(i as int).filter(|t: Seq<char>| byte_len(t) > 1),
        decreases ws.len() - i,
    {
        let lower = to_lowercase_text(string_of(&ws[i]).as_str());
        let blen = lower.as_str().as_bytes().len();
        proof {
            assert(lowered.take(i + 1).drop_last() =~= lowered.take(i as int));
            assert(lowered.take(i + 1).last() == lower@);
            lowered.take(i as int).lemma_filter_push(lower@, |t: Seq<char>| byte_len(t) > 1);
        }
        if blen > 1 {
            let t = chars_of(lower.as_str());
            assert(views(out@.push(t)) =~= views(out@).push(t@));
            out.push(t);
        }
        assert(lowered.take(i + 1) =~= lowered.take(i as int).push(lower@));
        i = i + 1;
    }
    assert(lowered.take(ws@.len() as int) =~= lowered);
    out
}


/// The lower-cased text a session is searched in: summary, goal, result and
/// topics, separated by spaces.
pub open spec fn session_haystack(s: SessionMemory) -> Seq<char> {
    lowercase(
        s.summary@ + " "@ + s.goal@ + " "@ + s.result@ + " "@ + join_with(
            text_views(s.topics@),
            " "@,
        ),
    )
}

/// How many search terms occur in a session (each term counted once per
/// occurrence in the term list).
pub open spec fn session_hits(s: SessionMemory, terms: Seq<Seq<char>>) -> nat {
    terms.filter(|t: Seq<char>| contains_sub(session_haystack(s), t)).len()
}

/// The ranking key of a session: hits, source revision, id.
pub open spec fn session_key(s: SessionMemory, terms: Seq<Seq<char>>) -> (int, int, Seq<char>) {
    (session_hits(s, terms) as int, s.source_revision as int, s.id@)
}

/// Key `a` ranks strictly ahead of key `b`: more hits, then a later source
/// revision, then a smaller id.
pub open spec fn key_before(a: (int, int, Seq<char>), b: (int, int, Seq<char>)) -> bool {
    a.0 > b.0 || (a.0 == b.0 && (a.1 > b.1 || (a.1 == b.1 && lex_order(a.2, b.2) < 0)))
}

pub proof fn lemma_key_before_trans(a: (int, int, Seq<char>), b: (int, int, Seq<char>), c: (int, int, Seq<char>))
    requires
        key_before(a, b),
        key_before(b, c),
    ensures
        key_before(a, c),
{
    if a.0 == b.0 && b.0 == c.0 && a.1 == b.1 && b.1 == c.1 {
        lemma_lex_trans(a.2, b.2, c.2);
    }
}

pub proof fn lemma_key_before_total(a: (int, int, Seq<char>), b: (int, int, Seq<char>))
    ensures
        !key_before(a, a),
        !key_before(a, b) && !key_before(b, a) ==> a == b,
{
    lemma_lex_zero(a.2, a.2);
    lemma_lex_antisym(a.2, b.2);
    lemma_lex_zero(a.2, b.2);
}

/// `idx` lists every active session exactly once, best ranked first; sessions
/// with equal keys keep their order.
pub open spec fn is_session_ranking(idx: Seq<usize>, sessions: Seq<SessionMemory>, terms: Seq<Seq<char>>) -> bool {
    &&& forall|i: int|
        0 <= i < idx.len() ==> #[trigger] idx[i] < sessions.len() && sessions[idx[i] as int].status
            == SessionMemoryStatus::Active
    &&& forall|i: int, j: int| 0 <= i < j < idx.len() ==> idx[i] != idx[j]
    &&& forall|k: int|
        0 <= k < sessions.len() && #[trigger] sessions[k].status == SessionMemoryStatus::Active
            ==> idx.contains(k as usize)
    &&& forall|i: int, j: int|
        0 <= i < j < idx.len() ==> !key_before(
            session_key(sessions[idx[j] as int], terms),
            session_key(sessions[idx[i] as int], terms),
        )
    &&& forall|i: int, j: int|
        0 <= i < j < idx.len() && session_key(sessions[idx[i] as int], terms) == session_key(
            sessions[idx[j] as int],
            terms,
        ) ==> idx[i] < idx[j]
}

/// A session's ranking key, computed.
struct RankKey {
    hits: usize,
    revision: i64,
    id: Vec<char>,
}

impl RankKey {
    spec fn view_key(&self) -> (int, int, Seq<char>) {
        (self.hits as int, self.revision as int, self.id@)
    }
}

fn key_ranks_before(a: &RankKey, b: &RankKey) -> (r: bool)
    ensures
        r == key_before(a.view_key(), b.view_key()),
{
    if a.hits != b.hits {
        a.hits > b.hits
    } else if a.revision != b.revision {
        a.revision > b.revision
    } else {
        lex_compare(&a.id, &b.id) < 0
    }
}

fn session_key_of(s: &SessionMemory, terms: &Vec<Vec<char>>) -> (r: RankKey)
    ensures
        r.view_key() == session_key(*s, views(terms@)),
{
    let mut text = chars_of(s.summary.as_str());
    append_chars(&mut text, &chars_of(" "));
    append_chars(&mut text, &chars_of(s.goal.as_str()));
    append_chars(&mut text, &chars_of(" "));
    append_chars(&mut text, &chars_of(s.result.as_str()));
    append_chars(&mut text, &chars_of(" "));
    let mut topics: Vec<Vec<char>> = Vec::new();
    let mut i: usize = 0;
    while i < s.topics.len()
        invariant
            i <= s.topics@.len(),
            views(topics@) == text_views(s.topics@).take(i as int),
        decreases s.topics.len() - i,
    {
        let t = chars_of(s.topics[i].as_str());
        assert(views(topics@.push(t)) =~= views(topics@).push(t@));
        assert(text_views(s.topics@).take(i + 1) =~= text_views(s.topics@).take(i as int).push(
            t@,
        ));
        topics.push(t);
        i = i + 1;
    }
    assert(text_views(s.topics@).take(s.topics@.len() as int) =~= text_views(s.topics@));
    append_chars(&mut text, &join_vec(&topics, &chars_of(" ")));
    let hay = chars_of(to_lowercase_text(string_of(&text).as_str()).as_str());
    assert(hay@ == session_haystack(*s));
    let ghost tv = views(terms@);
    let ghost pred = |t: Seq<char>| contains_sub(session_haystack(*s), t);
    let mut hits: usize = 0;
    let mut j: usize = 0;
    assert(tv.take(0).filter(pred) =~= Seq::<Seq<char>>::empty());
    while j < terms.len()
        invariant
            j <= terms@.len(),
            tv == views(terms@),
            hay@ == session_haystack(*s),
            pred == (|t: Seq<char>| contains_sub(session_haystack(*s), t)),
            hits == tv.take(j as int).filter(pred).len(),
            hits <= j,
        decreases terms.len() - j,
    {
        proof {
            tv.take(j as int).lemma_filter_push(tv[j as int], pred);
            assert(tv.take(j + 1) =~= tv.take(j as int).push(tv[j as int]));
        }
        if contains_vec(&hay, &terms[j]) {
            hits = hits + 1;
        }
        j = j + 1;
    }
    assert(tv.take(terms@.len() as int) =~= tv);
    RankKey { hits, revision: s.source_revision, id: chars_of(s.id.as_str()) }
}


/// Every listed session is active and at index `k` or later.
pub open spec fn ranks_members(out: Seq<usize>, sessions: Seq<SessionMemory>, k: int) -> bool {
    forall|a: int|
        0 <= a < out.len() ==> k <= #[trigger] out[a] < sessions.len() && sessions[out[a] as int].status
            == SessionMemoryStatus::Active
}

/// No session is listed twice.
pub open spec fn ranks_distinct(out: Seq<usize>) -> bool {
    forall|a: int, b: int| 0 <= a < b < out.len() ==> out[a] != out[b]
}

/// Every active session at index `k` or later is listed.
pub open spec fn ranks_complete(out: Seq<usize>, sessions: Seq<SessionMemory>, k: int) -> bool {
    forall|m: int|
        k <= m < sessions.len() && #[trigger] sessions[m].status == SessionMemoryStatus::Active
            ==> out.contains(m as usize)
}

/// No session is listed after one it ranks ahead of.
pub open spec fn ranks_sorted(out: Seq<usize>, sessions: Seq<SessionMemory>, tv: Seq<Seq<char>>) -> bool {
    forall|a: int, b: int|
        0 <= a < b < out.len() ==> !key_before(
            session_key(sessions[out[b] as int], tv),
            session_key(sessions[out[a] as int], tv),
        )
}

/// Sessions with equal keys keep their order.
pub open spec fn ranks_stable(out: Seq<usize>, sessions: Seq<SessionMemory>, tv: Seq<Seq<char>>) -> bool {
    forall|a: int, b: int|
        0 <= a < b < out.len() && session_key(sessions[out[a] as int], tv) == session_key(
            sessions[out[b] as int],
            tv,
        ) ==> out[a] < out[b]
}

/// `out` ranks exactly the active sessions at index `k` or later.
pub open spec fn ranked_from(out: Seq<usize>, sessions: Seq<SessionMemory>, tv: Seq<Seq<char>>, k: int) -> bool {
    &&& ranks_members(out, sessions, k)
    &&& ranks_distinct(out)
    &&& ranks_complete(out, sessions, k)
    &&& ranks_sorted(out, sessions, tv)
    &&& ranks_stable(out, sessions, tv)
}

proof fn lemma_insert_members(old_out: Seq<usize>, sessions: Seq<SessionMemory>, k: int, p: int)
    requires
        0 <= k < sessions.len() <= usize::MAX,
        sessions[k].status == SessionMemoryStatus::Active,
        ranks_members(old_out, sessions, k + 1),
        ranks_distinct(old_out),
        ranks_complete(old_out, sessions, k + 1),
        0 <= p <= old_out.len(),
    ensures
        ranks_members(old_out.insert(p, k as usize), sessions, k),
        ranks_distinct(old_out.insert(p, k as usize)),
        ranks_complete(old_out.insert(p, k as usize), sessions, k),
{
    let out = old_out.insert(p, k as usize);
    assert forall|a: int| 0 <= a < out.len() implies k <= #[trigger] out[a] < sessions.len()
        && sessions[out[a] as int].status == SessionMemoryStatus::Active by {
        if a < p {
            assert(out[a] == old_out[a]);
        } else if a > p {
            assert(out[a] == old_out[a - 1]);
        }
    }
    assert forall|a: int, b: int| 0 <= a < b < out.len() implies out[a] != out[b] by {
        if a < p {
            assert(out[a] == old_out[a]);
        } else if a > p {
            assert(out[a] == old_out[a - 1]);
        }
        if b < p {
            assert(out[b] == old_out[b]);
        } else if b > p {
            assert(out[b] == old_out[b - 1]);
        }
    }
    assert forall|m: int|
        k <= m < sessions.len() && #[trigger] sessions[m].status == SessionMemoryStatus::Active
            implies out.contains(m as usize) by {
        if m == k {
            assert(out[p] == k as usize);
        } else {
            assert(old_out.contains(m as usize));
            let q = choose|q: int| 0 <= q < old_out.len() && old_out[q] == m as usize;
            if q < p {
                assert(out[q] == old_out[q]);
            } else {
                assert(out[q + 1] == old_out[q]);
            }
        }
    }
}

proof fn lemma_insert_sorted(old_out: Seq<usize>, sessions: Seq<SessionMemory>, tv: Seq<Seq<char>>, k: int, p: int)
    requires
        0 <= k < sessions.len(),
        ranks_members(old_out, sessions, k + 1),
        ranks_sorted(old_out, sessions, tv),
        0 <= p <= old_out.len(),
        forall|a: int|
            0 <= a < p ==> key_before(
                session_key(sessions[old_out[a] as int], tv),
                session_key(sessions[k], tv),
            ),
        p < old_out.len() ==> !key_before(
            session_key(sessions[old_out[p] as int], tv),
            session_key(sessions[k], tv),
        ),
    ensures
        ranks_sorted(old_out.insert(p, k as usize), sessions, tv),
{
    let out = old_out.insert(p, k as usize);
    let xk = session_key(sessions[k], tv);
    lemma_key_before_total(xk, xk);
    assert forall|b: int| p <= b < old_out.len() implies !key_before(
        session_key(sessions[old_out[b] as int], tv),
        xk,
    ) by {
        let kp = session_key(sessions[old_out[p] as int], tv);
        let kb = session_key(sessions[old_out[b] as int], tv);
        if b > p && key_before(kb, xk) {
            lemma_key_before_total(kp, kb);
            if key_before(kp, kb) {
                lemma_key_before_trans(kp, kb, xk);
            }
        }
    }
    assert forall|a: int, b: int|
        0 <= a < b < out.len() implies !key_before(
            session_key(sessions[out[b] as int], tv),
            session_key(sessions[out[a] as int], tv),
        ) by {
        if b < p {
            assert(out[a] == old_out[a] && out[b] == old_out[b]);
        } else if b == p {
            assert(out[a] == old_out[a]);
            let ka = session_key(sessions[old_out[a] as int], tv);
            if key_before(xk, ka) {
                lemma_key_before_trans(xk, ka, xk);
            }
        } else if a < p {
            assert(out[a] == old_out[a] && out[b] == old_out[b - 1]);
        } else if a == p {
            assert(out[b] == old_out[b - 1]);
        } else {
            assert(out[a] == old_out[a - 1] && out[b] == old_out[b - 1]);
        }
    }
}

proof fn lemma_insert_stable(old_out: Seq<usize>, sessions: Seq<SessionMemory>, tv: Seq<Seq<char>>, k: int, p: int)
    requires
        0 <= k < sessions.len(),
        ranks_members(old_out, sessions, k + 1),
        ranks_stable(old_out, sessions, tv),
        0 <= p <= old_out.len(),
        forall|a: int|
            0 <= a < p ==> key_before(
                session_key(sessions[old_out[a] as int], tv),
                session_key(sessions[k], tv),
            ),
    ensures
        ranks_stable(old_out.insert(p, k as usize), sessions, tv),
{
    let out = old_out.insert(p, k as usize);
    let xk = session_key(sessions[k], tv);
    lemma_key_before_total(xk, xk);
    assert forall|a: int, b: int|
        0 <= a < b < out.len() && session_key(sessions[out[a] as int], tv) == session_key(
            sessions[out[b] as int],
            tv,
        ) implies out[a] < out[b] by {
        if b < p {
            assert(out[a] == old_out[a] && out[b] == old_out[b]);
        } else if b == p {
            assert(out[a] == old_out[a]);
        } else if a < p {
            assert(out[a] == old_out[a] && out[b] == old_out[b - 1]);
        } else if a == p {
            assert(out[b] == old_out[b - 1]);
        } else {
            assert(out[a] == old_out[a - 1] && out[b] == old_out[b - 1]);
        }
    }
}

/// Ranks the active sessions: by hits, then source revision (latest first),
/// then id, equal keys in the order they were given.
fn rank_sessions(sessions: &Vec<SessionMemory>, terms: &Vec<Vec<char>>) -> (r: Vec<usize>)
    ensures
        is_session_ranking(r@, sessions@, views(terms@)),
{
    let ghost tv = views(terms@);
    let n = sessions.len();
    let mut keys: Vec<RankKey> = Vec::new();
    let mut i: usize = 0;
    while i < n
        invariant
            n == sessions@.len(),
            i <= n,
            tv == views(terms@),
            keys@.len() == i,
            forall|m: int| 0 <= m < i ==> #[trigger] keys@[m].view_key() == session_key(sessions@[m], tv),
        decreases n - i,
    {
        let key = session_key_of(&sessions[i], terms);
        keys.push(key);
        i = i + 1;
    }
    let mut out: Vec<usize> = Vec::new();
    let mut k: usize = n;
    while k > 0
        invariant
            n == sessions@.len(),
            k <= n,
            keys@.len() == n,
            forall|m: int| 0 <= m < n ==> #[trigger] keys@[m].view_key() == session_key(sessions@[m], tv),
            ranked_from(out@, sessions@, tv, k as int),
        decreases k,
    {
        k = k - 1;
        if sessions[k].status == SessionMemoryStatus::Active {
            let ghost xk = session_key(sessions@[k as int], tv);
            let mut p: usize = 0;
            while p < out.len() && key_ranks_before(&keys[out[p]], &keys[k])
                invariant
                    p <= out@.len(),
                    n == sessions@.len(),
                    keys@.len() == n,
                    k < n,
                    xk == session_key(sessions@[k as int], tv),
                    forall|m: int|
                        0 <= m < n ==> #[trigger] keys@[m].view_key() == session_key(sessions@[m], tv),
                    ranked_from(out@, sessions@, tv, k + 1),
                    forall|a: int|
                        0 <= a < p ==> key_before(session_key(sessions@[out@[a] as int], tv), xk),
                decreases out@.len() - p,
            {
                p = p + 1;
            }
            proof {
                lemma_insert_members(out@, sessions@, k as int, p as int);
                lemma_insert_sorted(out@, sessions@, tv, k as int, p as int);
                lemma_insert_stable(out@, sessions@, tv, k as int, p as int);
            }
            out.insert(p, k);
        }
    }
    out
}


/// Status of a memory version.
#[derive(Debug, Clone, Copy, PartialEq, Eq, Structural)]
pub enum MemoryVersionStatus {
    Running,
    Succeeded,
    Failed,
}

/// A version of the tenant's global memory documents.
pub struct GlobalMemoryVersion {
    pub tenant_id: String,
    pub id: String,
    pub version_number: i64,
    pub status: MemoryVersionStatus,
    pub input_fingerprint: String,
    pub source_watermark: i64,
    pub summary_markdown: Option<String>,
    pub memory_markdown: Option<String>,
    pub raw_output_json: Option<String>,
    pub error_message: Option<String>,
    pub created_at: String,
    pub updated_at: String,
}

/// A version of a project's memory document.
pub struct ProjectMemoryVersion {
    pub tenant_id: String,
    pub id: String,
    pub project_id: String,
    pub version_number: i64,
    pub status: MemoryVersionStatus,
    pub input_fingerprint: String,
    pub source_watermark: i64,
    pub content_markdown: Option<String>,
    pub raw_output_json: Option<String>,
    pub error_message: Option<String>,
    pub created_at: String,
    pub updated_at: String,
}

/// A candidate section of the context: kind, id, source revision, content.
pub struct ContextSection {
    pub kind: String,
    pub id: String,
    pub source_revision: Option<i64>,
    pub content: String,
}

/// What a section of the context came from.
pub struct MemoryContextReference {
    pub kind: String,
    pub id: String,
    pub source_revision: Option<i64>,
}

impl View for ContextSection {
    type V = (Seq<char>, Seq<char>, Option<i64>, Seq<char>);

    open spec fn view(&self) -> Self::V {
        (self.kind@, self.id@, self.source_revision, self.content@)
    }
}

impl View for MemoryContextReference {
    type V = (Seq<char>, Seq<char>, Option<i64>);

    open spec fn view(&self) -> Self::V {
        (self.kind@, self.id@, self.source_revision)
    }
}

/// The assembled memory context, with the versions and project sources it
/// was assembled from.
pub struct MemoryContextResult<S> {
    pub text: String,
    pub revision: String,
    pub generated_at: Option<String>,
    pub estimated_tokens: usize,
    pub token_budget: usize,
    pub references: Vec<MemoryContextReference>,
    pub global_version: Option<GlobalMemoryVersion>,
    pub project_version: Option<ProjectMemoryVersion>,
    pub project_sources: Vec<S>,
}

/// A long-term (L3) global memory rule.
pub struct GlobalMemoryRule {
    pub item_id: String,
    pub title: String,
    pub statement: String,
    /// `current`, or `superseded` and the like once replaced.
    pub lifecycle: String,
}

/// The L3 rules of a tenant, with the revision of the view they come from.
pub struct GlobalMemoryRules {
    pub revision_hash: String,
    pub rules: Vec<GlobalMemoryRule>,
}

/// The lines of the current rules: `- <title>: <statement>` each, in order.
pub open spec fn rule_lines(rules: Seq<GlobalMemoryRule>) -> Seq<char>
    decreases rules.len(),
{
    if rules.len() == 0 {
        Seq::empty()
    } else {
        let last = rules.last();
        rule_lines(rules.drop_last()) + if last.lifecycle@ == "current"@ {
            "\n- "@ + last.title@ + ": "@ + last.statement@
        } else {
            Seq::empty()
        }
    }
}

/// The global rules section: present when some rule is current.
pub open spec fn l3_section(rules: GlobalMemoryRules) -> Option<(Seq<char>, Seq<char>, Option<i64>, Seq<char>)> {
    if rule_lines(rules.rules@).len() > 0 {
        Some(("global_memory_l3"@, rules.revision_hash@, None, "## Global Rules"@ + rule_lines(rules.rules@)))
    } else {
        None
    }
}

proof fn lemma_no_current_rule_lines(rules: Seq<GlobalMemoryRule>)
    requires
        forall|i: int| 0 <= i < rules.len() ==> (#[trigger] rules[i]).lifecycle@ != "current"@,
    ensures
        rule_lines(rules).len() == 0,
    decreases rules.len(),
{
    if rules.len() > 0 {
        lemma_no_current_rule_lines(rules.drop_last());
    }
}

/// Only current rules reach the context: superseded or retired rules add no
/// line, and when no rule is current there is no rules section at all.
pub proof fn law_only_current_rules_reach_context(rules: GlobalMemoryRules)
    requires
        forall|i: int| 0 <= i < rules.rules@.len() ==> (#[trigger] rules.rules@[i]).lifecycle@ != "current"@,
    ensures
        l3_section(rules) is None,
{
    lemma_no_current_rule_lines(rules.rules@);
}

fn copy_global_version(v: &GlobalMemoryVersion) -> (r: GlobalMemoryVersion)
    ensures
        r == *v,
{
    GlobalMemoryVersion {
        tenant_id: v.tenant_id.clone(),
        id: v.id.clone(),
        version_number: v.version_number,
        status: v.status,
        input_fingerprint: v.input_fingerprint.clone(),
        source_watermark: v.source_watermark,
        summary_markdown: crate::models::clone_opt(&v.summary_markdown),
        memory_markdown: crate::models::clone_opt(&v.memory_markdown),
        raw_output_json: crate::models::clone_opt(&v.raw_output_json),
        error_message: crate::models::clone_opt(&v.error_message),
        created_at: v.created_at.clone(),
        updated_at: v.updated_at.clone(),
    }
}

fn copy_project_version(v: &ProjectMemoryVersion) -> (r: ProjectMemoryVersion)
    ensures
        r == *v,
{
    ProjectMemoryVersion {
        tenant_id: v.tenant_id.clone(),
        id: v.id.clone(),
        project_id: v.project_id.clone(),
        version_number: v.version_number,
        status: v.status,
        input_fingerprint: v.input_fingerprint.clone(),
        source_watermark: v.source_watermark,
        content_markdown: crate::models::clone_opt(&v.content_markdown),
        raw_output_json: crate::models::clone_opt(&v.raw_output_json),
        error_message: crate::models::clone_opt(&v.error_message),
        created_at: v.created_at.clone(),
        updated_at: v.updated_at.clone(),
    }
}

fn l3_section_of(rules: &GlobalMemoryRules) -> (r: Option<ContextSection>)
    ensures
        section_view(r) == l3_section(*rules),
{
    let mut lines: Vec<char> = Vec::new();
    let mut i: usize = 0;
    while i < rules.rules.len()
        invariant
            i <= rules.rules@.len(),
            lines@ == rule_lines(rules.rules@.take(i as int)),
        decreases rules.rules.len() - i,
    {
        let rule = &rules.rules[i];
        proof {
            assert(rules.rules@.take(i + 1).drop_last() =~= rules.rules@.take(i as int));
            assert(rules.rules@.take(i + 1).last() == *rule);
        }
        if crate::script_catalog::str_eq(rule.lifecycle.as_str(), "current") {
            append_chars(&mut lines, &chars_of("\n- "));
            append_chars(&mut lines, &chars_of(rule.title.as_str()));
            append_chars(&mut lines, &chars_of(": "));
            append_chars(&mut lines, &chars_of(rule.statement.as_str()));
            assert(lines@ =~= rule_lines(rules.rules@.take(i as int)) + ("\n- "@ + rule.title@ + ": "@ + rule.statement@));
        } else {
            assert(lines@ =~= rule_lines(rules.rules@.take(i as int)) + Seq::<char>::empty());
        }
        i = i + 1;
    }
    assert(rules.rules@.take(rules.rules@.len() as int) =~= rules.rules@);
    if lines.len() == 0 {
        return None;
    }
    let mut content = chars_of("## Global Rules");
    append_chars(&mut content, &lines);
    Some(ContextSection {
        kind: String::from_str("global_memory_l3"),
        id: rules.revision_hash.clone(),
        source_revision: None,
        content: string_of(&content),
    })
}

/// The text of an optional markdown document, empty when absent.
pub open spec fn text_or_empty(o: Option<String>) -> Seq<char> {
    match o {
        Some(t) => t@,
        None => Seq::empty(),
    }
}

/// The global memory section, when the version has any content.
pub open spec fn global_section(v: GlobalMemoryVersion) -> Option<(Seq<char>, Seq<char>, Option<i64>, Seq<char>)> {
    let summary = text_or_empty(v.summary_markdown);
    let memory = text_or_empty(v.memory_markdown);
    if summary.len() > 0 || memory.len() > 0 {
        Some(
            (
                "global_memory"@,
                v.id@,
                Some(v.source_watermark),
                "## Global Memory\n"@ + summary + "\n\n## Project Index\n"@ + memory,
            ),
        )
    } else {
        None
    }
}

/// The project memory section, when the version has content.
pub open spec fn project_section(v: ProjectMemoryVersion) -> Option<(Seq<char>, Seq<char>, Option<i64>, Seq<char>)> {
    let content = text_or_empty(v.content_markdown);
    if content.len() > 0 {
        Some(("project_memory"@, v.id@, Some(v.source_watermark), "## Project Memory\n"@ + content))
    } else {
        None
    }
}

/// The section of one session memory.
pub open spec fn session_section(s: SessionMemory) -> (Seq<char>, Seq<char>, Option<i64>, Seq<char>) {
    (
        "session_memory"@,
        s.id@,
        Some(s.source_revision),
        "## Session Memory\n### Summary\n"@ + s.summary@ + "\n\n### Goal\n"@ + s.goal@
            + "\n\n### Result\n"@ + s.result@ + "\n\n### Decisions\n"@ + bullets(
            text_views(s.decisions@),
        ) + "\n\n### Verification\n"@ + bullets(text_views(s.verification@))
            + "\n\n### Follow-up\n"@ + bullets(text_views(s.follow_up@)),
    )
}

pub open spec fn opt_seq<A>(o: Option<A>) -> Seq<A> {
    match o {
        Some(x) => seq![x],
        None => Seq::empty(),
    }
}

/// The candidate sections in priority order: global, the current global
/// rules, project, then the chosen sessions.
pub open spec fn context_sections(
    global: Option<GlobalMemoryVersion>,
    rules: Option<GlobalMemoryRules>,
    project: Option<ProjectMemoryVersion>,
    chosen: Seq<SessionMemory>,
) -> Seq<(Seq<char>, Seq<char>, Option<i64>, Seq<char>)> {
    opt_seq(
        match global {
            Some(g) => global_section(g),
            None => None,
        },
    ) + opt_seq(
        match rules {
            Some(l) => l3_section(l),
            None => None,
        },
    ) + opt_seq(
        match project {
            Some(p) => project_section(p),
            None => None,
        },
    ) + chosen.map_values(|s: SessionMemory| session_section(s))
}

/// `a + b`, saturating at `usize::MAX`.
pub open spec fn saturating_sum(a: nat, b: nat) -> nat {
    if a + b > usize::MAX {
        usize::MAX as nat
    } else {
        a + b
    }
}

/// The first `n` sections fitted into the budget one after another: the
/// text so far, the tokens used, and the references of what went in.
pub open spec fn budget_fold(
    sections: Seq<(Seq<char>, Seq<char>, Option<i64>, Seq<char>)>,
    budget: nat,
    n: int,
) -> (Seq<char>, nat, Seq<(Seq<char>, Seq<char>, Option<i64>)>)
    decreases n,
{
    if n <= 0 {
        (Seq::empty(), 0, Seq::empty())
    } else {
        let (text, used, refs) = budget_fold(sections, budget, n - 1);
        let s = sections[n - 1];
        match fitted_section(s.3, budget, used) {
            None => (text, used, refs),
            Some(c) => (
                if text.len() == 0 {
                    c
                } else {
                    text + "\n\n"@ + c
                },
                saturating_sum(used, estimated_tokens(c)),
                refs.push((s.0, s.1, s.2)),
            ),
        }
    }
}

/// Once the budget is used up, later sections add nothing.
pub proof fn lemma_budget_exhausted(
    sections: Seq<(Seq<char>, Seq<char>, Option<i64>, Seq<char>)>,
    budget: nat,
    m: int,
    n: int,
)
    requires
        0 <= m <= n,
        budget_fold(sections, budget, m).1 >= budget,
    ensures
        budget_fold(sections, budget, n) == budget_fold(sections, budget, m),
    decreases n - m,
{
    if n > m {
        lemma_budget_exhausted(sections, budget, m, n - 1);
    }
}

/// A text followed by a zero byte.
pub open spec fn field_bytes(s: Seq<char>) -> Seq<u8> {
    encode_utf8(s).push(0u8)
}

/// Decimal text of an integer, with a leading `-` when negative.
pub open spec fn signed_decimal(n: int) -> Seq<char> {
    if n < 0 {
        "-"@ + decimal((-n) as nat)
    } else {
        decimal(n as nat)
    }
}

/// Bytes of the references: kind, id and source revision, each ended by a
/// zero byte.
pub open spec fn reference_bytes(refs: Seq<(Seq<char>, Seq<char>, Option<i64>)>) -> Seq<u8>
    decreases refs.len(),
{
    if refs.len() == 0 {
        Seq::empty()
    } else {
        let r = refs.last();
        reference_bytes(refs.drop_last()) + field_bytes(r.0) + field_bytes(r.1) + match r.2 {
            Some(v) => encode_utf8(signed_decimal(v as int)),
            None => Seq::empty(),
        }.push(0u8)
    }
}

/// The bytes a context revision digests.
pub open spec fn revision_bytes(
    tenant_id: Seq<char>,
    project_path: Option<Seq<char>>,
    query: Seq<char>,
    token_budget: nat,
    refs: Seq<(Seq<char>, Seq<char>, Option<i64>)>,
) -> Seq<u8> {
    field_bytes(tenant_id) + field_bytes(
        match project_path {
            Some(p) => p,
            None => Seq::empty(),
        },
    ) + field_bytes(query) + field_bytes(decimal(token_budget)) + reference_bytes(refs)
}

/// `context-` and the SHA-256 of the revision bytes.
pub open spec fn context_revision_text(
    tenant_id: Seq<char>,
    project_path: Option<Seq<char>>,
    query: Seq<char>,
    token_budget: nat,
    refs: Seq<(Seq<char>, Seq<char>, Option<i64>)>,
) -> Seq<char> {
    "context-"@ + sha256_hex(revision_bytes(tenant_id, project_path, query, token_budget, refs))
}

fn push_text_bytes(buf: &mut Vec<u8>, s: &str)
    ensures
        final(buf)@ == old(buf)@ + encode_utf8(s@),
{
    let b = s.as_bytes();
    let ghost start = buf@;
    let mut i: usize = 0;
    while i < b.len()
        invariant
            i <= b@.len(),
            b@ == encode_utf8(s@),
            buf@ == start + b@.take(i as int),
        decreases b.len() - i,
    {
        buf.push(b[i]);
        i = i + 1;
        assert(buf@ =~= start + b@.take(i as int));
    }
    assert(b@.take(b@.len() as int) =~= b@);
}

/// Decimal text of a signed number.
pub fn signed_decimal_text(n: i64) -> (r: String)
    ensures
        r@ == signed_decimal(n as int),
{
    if n < 0 {
        let m: u64 = ((-(n + 1)) as u64) + 1;
        let mut out = chars_of("-");
        append_chars(&mut out, &decimal_text(m));
        assert(out@ =~= "-"@ + decimal((-n) as nat));
        string_of(&out)
    } else {
        string_of(&decimal_text(n as u64))
    }
}

/// References as their views.
pub open spec fn reference_views(refs: Seq<MemoryContextReference>) -> Seq<(Seq<char>, Seq<char>, Option<i64>)> {
    refs.map_values(|r: MemoryContextReference| r@)
}

pub fn context_revision(
    tenant_id: &str,
    project_path: Option<&str>,
    query: &str,
    token_budget: usize,
    references: &[MemoryContextReference],
) -> (r: String)
    ensures
        r@ == context_revision_text(
            tenant_id@,
            match project_path {
                Some(p) => Some(p@),
                None => None,
            },
            query@,
            token_budget as nat,
            reference_views(references@),
        ),
{
    let ghost pv = match project_path {
        Some(p) => p@,
        None => Seq::<char>::empty(),
    };
    let mut buf: Vec<u8> = Vec::new();
    push_text_bytes(&mut buf, tenant_id);
    buf.push(0u8);
    match project_path {
        Some(p) => push_text_bytes(&mut buf, p),
        None => push_text_bytes(&mut buf, ""),
    }
    buf.push(0u8);
    push_text_bytes(&mut buf, query);
    buf.push(0u8);
    push_text_bytes(&mut buf, string_of(&decimal_text(token_budget as u64)).as_str());
    buf.push(0u8);
    proof {
        reveal_strlit("");
        assert(buf@ =~= field_bytes(tenant_id@) + field_bytes(pv) + field_bytes(query@)
            + field_bytes(decimal(token_budget as nat)));
    }
    let ghost head = buf@;
    let ghost rv = reference_views(references@);
    let mut i: usize = 0;
    while i < references.len()
        invariant
            i <= references@.len(),
            rv == reference_views(references@),
            buf@ == head + reference_bytes(rv.take(i as int)),
        decreases references.len() - i,
    {
        let r = &references[i];
        push_text_bytes(&mut buf, r.kind.as_str());
        buf.push(0u8);
        push_text_bytes(&mut buf, r.id.as_str());
        buf.push(0u8);
        if let Some(v) = r.source_revision {
            push_text_bytes(&mut buf, signed_decimal_text(v).as_str());
        }
        buf.push(0u8);
        proof {
            let t = rv.take(i + 1);
            assert(t.drop_last() =~= rv.take(i as int));
            assert(t.last() == r@);
            assert(buf@ =~= head + reference_bytes(rv.take(i + 1)));
        }
        i = i + 1;
    }
    assert(rv.take(references@.len() as int) =~= rv);
    let digest = sha256_hex_of(buf.as_slice());
    let mut out = chars_of("context-");
    append_chars(&mut out, &chars_of(digest.as_str()));
    string_of(&out)
}


pub open spec fn section_view(o: Option<ContextSection>) -> Option<(Seq<char>, Seq<char>, Option<i64>, Seq<char>)> {
    match o {
        Some(c) => Some(c@),
        None => None,
    }
}

fn global_section_of(v: &GlobalMemoryVersion) -> (r: Option<ContextSection>)
    ensures
        section_view(r) == global_section(*v),
{
    let summary = match &v.summary_markdown {
        Some(t) => chars_of(t.as_str()),
        None => Vec::new(),
    };
    let memory = match &v.memory_markdown {
        Some(t) => chars_of(t.as_str()),
        None => Vec::new(),
    };
    assert(summary@ == text_or_empty(v.summary_markdown));
    assert(memory@ == text_or_empty(v.memory_markdown));
    if summary.len() == 0 && memory.len() == 0 {
        return None;
    }
    let mut content = chars_of("## Global Memory\n");
    append_chars(&mut content, &summary);
    append_chars(&mut content, &chars_of("\n\n## Project Index\n"));
    append_chars(&mut content, &memory);
    Some(ContextSection {
        kind: String::from_str("global_memory"),
        id: v.id.clone(),
        source_revision: Some(v.source_watermark),
        content: string_of(&content),
    })
}

fn project_section_of(v: &ProjectMemoryVersion) -> (r: Option<ContextSection>)
    ensures
        section_view(r) == project_section(*v),
{
    let content = match &v.content_markdown {
        Some(t) => chars_of(t.as_str()),
        None => Vec::new(),
    };
    assert(content@ == text_or_empty(v.content_markdown));
    if content.len() == 0 {
        return None;
    }
    let mut text = chars_of("## Project Memory\n");
    append_chars(&mut text, &content);
    Some(ContextSection {
        kind: String::from_str("project_memory"),
        id: v.id.clone(),
        source_revision: Some(v.source_watermark),
        content: string_of(&text),
    })
}

fn session_section_of(m: &SessionMemory) -> (r: ContextSection)
    ensures
        r@ == session_section(*m),
{
    let mut text = chars_of("## Session Memory\n### Summary\n");
    append_chars(&mut text, &chars_of(m.summary.as_str()));
    append_chars(&mut text, &chars_of("\n\n### Goal\n"));
    append_chars(&mut text, &chars_of(m.goal.as_str()));
    append_chars(&mut text, &chars_of("\n\n### Result\n"));
    append_chars(&mut text, &chars_of(m.result.as_str()));
    append_chars(&mut text, &chars_of("\n\n### Decisions\n"));
    append_chars(&mut text, &chars_of(bullet_lines(m.decisions.as_slice()).as_str()));
    append_chars(&mut text, &chars_of("\n\n### Verification\n"));
    append_chars(&mut text, &chars_of(bullet_lines(m.verification.as_slice()).as_str()));
    append_chars(&mut text, &chars_of("\n\n### Follow-up\n"));
    append_chars(&mut text, &chars_of(bullet_lines(m.follow_up.as_slice()).as_str()));
    ContextSection {
        kind: String::from_str("session_memory"),
        id: m.id.clone(),
        source_revision: Some(m.source_revision),
        content: string_of(&text),
    }
}

/// The sessions a ranking puts first, at most three.
pub open spec fn chosen_sessions(idx: Seq<usize>, sessions: Seq<SessionMemory>) -> Seq<SessionMemory> {
    idx.take(if idx.len() < 3 {
        idx.len() as int
    } else {
        3
    }).map_values(|i: usize| sessions[i as int])
}

pub open spec fn deref_opt<A>(o: Option<&A>) -> Option<A> {
    match o {
        Some(x) => Some(*x),
        None => None,
    }
}

/// `r` is the context assembled from these inputs and chosen sessions.
pub open spec fn is_memory_context<S>(
    r: MemoryContextResult<S>,
    tenant_id: Seq<char>,
    project_path: Option<Seq<char>>,
    query: Seq<char>,
    token_budget: nat,
    global: Option<GlobalMemoryVersion>,
    rules: Option<GlobalMemoryRules>,
    project: Option<ProjectMemoryVersion>,
    chosen: Seq<SessionMemory>,
) -> bool {
    let secs = context_sections(global, rules, project, chosen);
    let f = budget_fold(secs, token_budget, secs.len() as int);
    &&& r.text@ == f.0
    &&& reference_views(r.references@) == f.2
    &&& r.revision@ == context_revision_text(tenant_id, project_path, query, token_budget, f.2)
    &&& r.estimated_tokens == estimated_tokens(f.0)
    &&& r.token_budget == token_budget
    &&& opt_view(r.generated_at) == match global {
        Some(g) => Some(g.updated_at@),
        None => match project {
            Some(p) => Some(p.updated_at@),
            None => None,
        },
    }
    &&& r.global_version == global
    &&& r.project_version == project
}

/// Builds the memory context: the global section, the current global (L3)
/// rules, the project section, then the three best ranked active sessions,
/// fitted in that order into the token budget, with a revision digest of
/// what went in. The versions and the project's sources come back with it.
pub fn compile_memory_context<S>(
    tenant_id: &str,
    project_path: Option<&str>,
    query: &str,
    token_budget: usize,
    global_version: Option<&GlobalMemoryVersion>,
    global_rules: Option<&GlobalMemoryRules>,
    project_version: Option<&ProjectMemoryVersion>,
    project_sources: Vec<S>,
    sessions: &Vec<SessionMemory>,
) -> (r: MemoryContextResult<S>)
    ensures
        r.project_sources@ == project_sources@,
        exists|idx: Seq<usize>|
            is_session_ranking(idx, sessions@, search_terms(query@)) && is_memory_context(
                r,
                tenant_id@,
                match project_path {
                    Some(p) => Some(p@),
                    None => None,
                },
                query@,
                token_budget as nat,
                deref_opt(global_version),
                deref_opt(global_rules),
                deref_opt(project_version),
                chosen_sessions(idx, sessions@),
            ),
{
    let terms = query_terms(query);
    let ranking = rank_sessions(sessions, &terms);
    let ghost chosen = chosen_sessions(ranking@, sessions@);
    let ghost secs = context_sections(deref_opt(global_version), deref_opt(global_rules), deref_opt(project_version), chosen);
    let mut sections: Vec<ContextSection> = Vec::new();
    if let Some(g) = global_version {
        if let Some(c) = global_section_of(g) {
            sections.push(c);
        }
    }
    if let Some(l) = global_rules {
        if let Some(c) = l3_section_of(l) {
            sections.push(c);
        }
    }
    if let Some(p) = project_version {
        if let Some(c) = project_section_of(p) {
            sections.push(c);
        }
    }
    let ghost lead = sections@.map_values(|c: ContextSection| c@);
    assert(lead =~= opt_seq(
        match deref_opt(global_version) {
            Some(g) => global_section(g),
            None => None,
        },
    ) + opt_seq(
        match deref_opt(global_rules) {
            Some(l) => l3_section(l),
            None => None,
        },
    ) + opt_seq(
        match deref_opt(project_version) {
            Some(p) => project_section(p),
            None => None,
        },
    ));
    let take: usize = if ranking.len() < 3 {
        ranking.len()
    } else {
        3
    };
    let mut j: usize = 0;
    while j < take
        invariant
            j <= take <= ranking@.len(),
            take == (if ranking@.len() < 3 {
                ranking@.len()
            } else {
                3
            }),
            chosen == chosen_sessions(ranking@, sessions@),
            forall|a: int| 0 <= a < ranking@.len() ==> #[trigger] ranking@[a] < sessions@.len(),
            sections@.map_values(|c: ContextSection| c@) == lead + chosen.take(j as int).map_values(
                |s: SessionMemory| session_section(s),
            ),
        decreases take - j,
    {
        let c = session_section_of(&sessions[ranking[j]]);
        proof {
            assert(chosen[j as int] == sessions@[ranking@[j as int] as int]);
            assert(chosen.take(j + 1).map_values(|s: SessionMemory| session_section(s)) =~= chosen.take(
                j as int,
            ).map_values(|s: SessionMemory| session_section(s)).push(session_section(chosen[j as int])));
            assert(sections@.push(c).map_values(|c: ContextSection| c@) =~= sections@.map_values(
                |c: ContextSection| c@,
            ).push(c@));
        }
        sections.push(c);
        j = j + 1;
    }
    assert(chosen.take(take as int) =~= chosen);
    assert(sections@.map_values(|c: ContextSection| c@) =~= secs);
    let n = sections.len();
    let mut text: Vec<char> = Vec::new();
    let mut used: usize = 0;
    let mut references: Vec<MemoryContextReference> = Vec::new();
    let mut i: usize = 0;
    assert(reference_views(references@) =~= Seq::<(Seq<char>, Seq<char>, Option<i64>)>::empty());
    while i < n
        invariant_except_break
            i <= n,
            (text@, used as nat, reference_views(references@)) == budget_fold(secs, token_budget as nat, i as int),
        invariant
            n == sections@.len(),
            secs == sections@.map_values(|c: ContextSection| c@),
        ensures
            (text@, used as nat, reference_views(references@)) == budget_fold(secs, token_budget as nat, n as int),
        decreases n - i,
    {
        let section = &sections[i];
        assert(secs[i as int] == section@);
        match fit_context_section(section.content.as_str(), token_budget, used) {
            None => {},
            Some(content) => {
                let section_tokens = estimate_context_tokens(content.as_str());
                let ghost before = text@;
                if text.len() > 0 {
                    append_chars(&mut text, &chars_of("\n\n"));
                }
                append_chars(&mut text, &chars_of(content.as_str()));
                used = if used > usize::MAX - section_tokens {
                    usize::MAX
                } else {
                    used + section_tokens
                };
                let reference = MemoryContextReference {
                    kind: section.kind.clone(),
                    id: section.id.clone(),
                    source_revision: section.source_revision,
                };
                proof {
                    assert(reference_views(references@.push(reference)) =~= reference_views(
                        references@,
                    ).push(reference@));
                    if before.len() == 0 {
                        assert(text@ =~= content@);
                    }
                }
                references.push(reference);
            },
        }
        if used >= token_budget {
            proof {
                lemma_budget_exhausted(secs, token_budget as nat, i + 1, n as int);
            }
            break;
        }
        i = i + 1;
    }
    let text_string = string_of(&text);
    let revision = context_revision(tenant_id, project_path, query, token_budget, references.as_slice());
    let estimated_tokens = estimate_context_tokens(text_string.as_str());
    let generated_at = match global_version {
        Some(g) => Some(g.updated_at.clone()),
        None => match project_version {
            Some(p) => Some(p.updated_at.clone()),
            None => None,
        },
    };
    let global_copy = match global_version {
        Some(g) => Some(copy_global_version(g)),
        None => None,
    };
    let project_copy = match project_version {
        Some(p) => Some(copy_project_version(p)),
        None => None,
    };
    MemoryContextResult {
        text: text_string,
        revision,
        generated_at,
        estimated_tokens,
        token_budget,
        references,
        global_version: global_copy,
        project_version: project_copy,
        project_sources,
    }
}


/// A text has at least as many UTF-8 bytes as characters.
pub proof fn lemma_bytes_at_least_chars(s: Seq<char>)
    ensures
        byte_len(s) >= s.len(),
    decreases s.len(),
{
    if s.len() > 0 {
        lemma_bytes_at_least_chars(s.drop_first());
        assert(encode_scalar(s[0] as u32).len() >= 1);
    }
}

/// A section is only fitted while budget is left, and what is fitted never
/// needs more tokens than remain.
pub proof fn law_fitted_section_within_budget(content: Seq<char>, budget: nat, used: nat)
    ensures
        match fitted_section(content, budget, used) {
            Some(c) => used < budget && estimated_tokens(c) <= budget - used,
            None => used >= budget,
        },
{
    if used < budget {
        let remaining = (budget - used) as nat;
        if estimated_tokens(content) > remaining {
            let max_chars = char_allowance(remaining);
            let prefix = first_line(content);
            lemma_find_char_bounds(content, '\n', 0);
            lemma_bytes_at_least_chars(prefix);
            assert(max_chars <= 4 * remaining);
            if max_chars <= byte_len(prefix) + 1 {
                assert(take_at_most(prefix, max_chars).len() <= max_chars);
            } else {
                let body_limit = (max_chars - byte_len(prefix) - 1) as nat;
                let body = take_at_most(content.skip(prefix.len() as int), body_limit);
                lemma_trail_ws_bounds(body, 0, body.len() as int);
                assert(trim_end(body).len() <= body.len());
                assert((prefix + "\n"@ + trim_end(body)).len() <= max_chars) by {
                    reveal_strlit("\n");
                }
            }
        }
    }
}

/// `a` ranks ahead of `b`: a better key, or an equal key and an earlier
/// place.
pub open spec fn ranked_ahead(sessions: Seq<SessionMemory>, tv: Seq<Seq<char>>, a: usize, b: usize) -> bool {
    let ka = session_key(sessions[a as int], tv);
    let kb = session_key(sessions[b as int], tv);
    key_before(ka, kb) || (ka == kb && a < b)
}

proof fn lemma_ranked_ahead_order(idx: Seq<usize>, sessions: Seq<SessionMemory>, tv: Seq<Seq<char>>, i: int, j: int)
    requires
        is_session_ranking(idx, sessions, tv),
        0 <= i < j < idx.len(),
    ensures
        ranked_ahead(sessions, tv, idx[i], idx[j]),
        !ranked_ahead(sessions, tv, idx[j], idx[i]),
{
    let ki = session_key(sessions[idx[i] as int], tv);
    let kj = session_key(sessions[idx[j] as int], tv);
    lemma_key_before_total(ki, kj);
    lemma_key_before_total(kj, ki);
    if key_before(ki, kj) && key_before(kj, ki) {
        lemma_key_before_trans(ki, kj, ki);
    }
}

proof fn lemma_ranking_prefix(idx1: Seq<usize>, idx2: Seq<usize>, sessions: Seq<SessionMemory>, tv: Seq<Seq<char>>, p: int)
    requires
        is_session_ranking(idx1, sessions, tv),
        is_session_ranking(idx2, sessions, tv),
        0 <= p <= idx1.len(),
        0 <= p <= idx2.len(),
        forall|k: int| 0 <= k < p ==> idx1[k] == idx2[k],
    ensures
        idx1 == idx2,
    decreases idx1.len() - p,
{
    if p == idx1.len() {
        if p < idx2.len() {
            let b = idx2[p];
            assert(idx1.contains(b));
            let q = choose|q: int| 0 <= q < idx1.len() && idx1[q] == b;
            assert(idx2[q] == b);
        }
        assert(idx1 =~= idx2);
    } else {
        let a = idx1[p];
        assert(idx2.contains(a));
        let q = choose|q: int| 0 <= q < idx2.len() && idx2[q] == a;
        if q < p {
            assert(idx1[q] == a);
        }
        let b = idx2[p];
        assert(idx1.contains(b));
        let q2 = choose|q: int| 0 <= q < idx1.len() && idx1[q] == b;
        if q2 < p {
            assert(idx2[q2] == b);
        }
        if a != b {
            if q > p {
                lemma_ranked_ahead_order(idx2, sessions, tv, p, q);
            }
            if q2 > p {
                lemma_ranked_ahead_order(idx1, sessions, tv, p, q2);
            }
        }
        lemma_ranking_prefix(idx1, idx2, sessions, tv, p + 1);
    }
}

/// There is only one ranking of a set of sessions for a set of search
/// terms.
pub proof fn law_session_ranking_unique(
    idx1: Seq<usize>,
    idx2: Seq<usize>,
    sessions: Seq<SessionMemory>,
    terms: Seq<Seq<char>>,
)
    requires
        is_session_ranking(idx1, sessions, terms),
        is_session_ranking(idx2, sessions, terms),
    ensures
        idx1 == idx2,
{
    lemma_ranking_prefix(idx1, idx2, sessions, terms, 0);
}


/// Assembling the memory context twice from the same inputs gives the same
/// text, references, token estimate and revision.
pub proof fn law_memory_context_stable<S>(
    r1: MemoryContextResult<S>,
    r2: MemoryContextResult<S>,
    tenant_id: Seq<char>,
    project_path: Option<Seq<char>>,
    query: Seq<char>,
    token_budget: nat,
    global: Option<GlobalMemoryVersion>,
    rules: Option<GlobalMemoryRules>,
    project: Option<ProjectMemoryVersion>,
    sessions: Seq<SessionMemory>,
)
    requires
        exists|idx: Seq<usize>|
            is_session_ranking(idx, sessions, search_terms(query)) && is_memory_context(
                r1,
                tenant_id,
                project_path,
                query,
                token_budget,
                global,
                rules,
                project,
                chosen_sessions(idx, sessions),
            ),
        exists|idx: Seq<usize>|
            is_session_ranking(idx, sessions, search_terms(query)) && is_memory_context(
                r2,
                tenant_id,
                project_path,
                query,
                token_budget,
                global,
                rules,
                project,
                chosen_sessions(idx, sessions),
            ),
    ensures
        r1.text@ == r2.text@,
        reference_views(r1.references@) == reference_views(r2.references@),
        r1.estimated_tokens == r2.estimated_tokens,
        r1.revision@ == r2.revision@,
{
    let idx1 = choose|idx: Seq<usize>|
        is_session_ranking(idx, sessions, search_terms(query)) && is_memory_context(
            r1,
            tenant_id,
            project_path,
            query,
            token_budget,
            global,
            rules,
            project,
            chosen_sessions(idx, sessions),
        );
    let idx2 = choose|idx: Seq<usize>|
        is_session_ranking(idx, sessions, search_terms(query)) && is_memory_context(
            r2,
            tenant_id,
            project_path,
            query,
            token_budget,
            global,
            rules,
            project,
            chosen_sessions(idx, sessions),
        );
    law_session_ranking_unique(idx1, idx2, sessions, search_terms(query));
}


proof fn lemma_fold_refs_grow(
    sections: Seq<(Seq<char>, Seq<char>, Option<i64>, Seq<char>)>,
    budget: nat,
    m: int,
    n: int,
)
    requires
        0 <= m <= n,
    ensures
        budget_fold(sections, budget, n).2.len() >= budget_fold(sections, budget, m).2.len(),
        forall|k: int|
            0 <= k < budget_fold(sections, budget, m).2.len() ==> budget_fold(sections, budget, n).2[k]
                == budget_fold(sections, budget, m).2[k],
    decreases n - m,
{
    if n > m {
        lemma_fold_refs_grow(sections, budget, m, n - 1);
    }
}

/// When the global memory has content and the budget is not zero, the
/// context starts with it: the first reference is the global memory version.
pub proof fn law_global_memory_comes_first(
    global: GlobalMemoryVersion,
    rules: Option<GlobalMemoryRules>,
    project: Option<ProjectMemoryVersion>,
    chosen: Seq<SessionMemory>,
    token_budget: nat,
)
    requires
        global_section(global) is Some,
        token_budget > 0,
    ensures
        ({
            let secs = context_sections(Some(global), rules, project, chosen);
            let refs = budget_fold(secs, token_budget, secs.len() as int).2;
            refs.len() >= 1 && refs[0] == ("global_memory"@, global.id@, Some(global.source_watermark))
        }),
{
    let secs = context_sections(Some(global), rules, project, chosen);
    let g = global_section(global)->0;
    assert(secs[0] == g);
    law_fitted_section_within_budget(g.3, token_budget, 0);
    assert(budget_fold(secs, token_budget, 0) == (Seq::<char>::empty(), 0nat, Seq::<(Seq<char>, Seq<char>, Option<i64>)>::empty()));
    lemma_fold_refs_grow(secs, token_budget, 1, secs.len() as int);
}

/// The token budget of a context request: 2000 unless asked, kept between
/// 64 and 32000.
pub fn memory_context_token_budget(requested: Option<usize>) -> (r: usize)
    ensures
        r == match requested {
            Some(b) => if b < 64 {
                64
            } else if b > 32000 {
                32000
            } else {
                b as int
            },
            None => 2000,
        },
{
    match requested {
        Some(b) => if b < 64 {
            64
        } else if b > 32000 {
            32000
        } else {
            b
        },
        None => 2000,
    }
}

} // verus!
