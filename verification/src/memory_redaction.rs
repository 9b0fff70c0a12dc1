//! Redaction of memory text before it is sent to an agent or stored: long
//! runs that look like secrets (keys, tokens, digests) are replaced by a
//! marker naming the rule that matched.

use vstd::prelude::*;

verus! {

/// The marker that stands for a redacted high-entropy run.
pub open spec fn high_entropy_marker() -> Seq<char> {
    "[REDACTED:high_entropy]"@
}

/// Shortest run that can count as high-entropy.
pub const MIN_HIGH_ENTROPY_RUN: usize = 32;

pub open spec fn is_ascii_digit(c: char) -> bool {
    '0' <= c <= '9'
}

pub open spec fn is_ascii_letter(c: char) -> bool {
    ('a' <= c <= 'z') || ('A' <= c <= 'Z')
}

/// A character of a token run: an ASCII letter or digit.
pub open spec fn is_token_char(c: char) -> bool {
    is_ascii_digit(c) || is_ascii_letter(c)
}

/// The end of the token run that starts at `i`: the first index at or after
/// `i` that holds no token character, or the length.
pub open spec fn run_end(s: Seq<char>, i: int) -> int
    decreases s.len() - i,
{
    if i < 0 || i >= s.len() || !is_token_char(s[i]) {
        i
    } else {
        run_end(s, i + 1)
    }
}

/// A run is high-entropy when it is at least `MIN_HIGH_ENTROPY_RUN` long and
/// mixes digits and letters.
pub open spec fn high_entropy(run: Seq<char>) -> bool {
    &&& run.len() >= MIN_HIGH_ENTROPY_RUN
    &&& exists|k: int| 0 <= k < run.len() && is_ascii_digit(#[trigger] run[k])
    &&& exists|k: int| 0 <= k < run.len() && is_ascii_letter(#[trigger] run[k])
}

pub proof fn lemma_run_end_bounds(s: Seq<char>, i: int)
    requires
        0 <= i <= s.len(),
    ensures
        i <= run_end(s, i) <= s.len(),
        forall|k: int| i <= k < run_end(s, i) ==> is_token_char(#[trigger] s[k]),
        run_end(s, i) < s.len() ==> !is_token_char(s[run_end(s, i)]),
    decreases s.len() - i,
{
    if i < s.len() && is_token_char(s[i]) {
        lemma_run_end_bounds(s, i + 1);
    }
}

/// The text from index `i` on with every high-entropy run replaced by the
/// marker; `i` is taken as the start of a run.
pub open spec fn redact_from(s: Seq<char>, i: int) -> Seq<char>
    decreases s.len() - i, 1int,
{
    if i < 0 || i >= s.len() {
        Seq::empty()
    } else if !is_token_char(s[i]) {
        seq![s[i]] + redact_from(s, i + 1)
    } else {
        redact_run(s, i)
    }
}

pub open spec fn redact_run(s: Seq<char>, i: int) -> Seq<char>
    decreases s.len() - i, 0int,
{
    if 0 <= i < s.len() && is_token_char(s[i]) {
        let j = run_end(s, i);
        let run = s.subrange(i, j);
        proof {
            lemma_run_end_bounds(s, i);
            lemma_run_end_bounds(s, i + 1);
        }
        (if high_entropy(run) {
            high_entropy_marker()
        } else {
            run
        }) + redact_from(s, j)
    } else {
        Seq::empty()
    }
}

/// The redacted form of a text.
pub open spec fn redacted(s: Seq<char>) -> Seq<char> {
    redact_from(s, 0)
}

/// Redacted memory text.
pub struct MemoryRedaction {
    pub text: String,
}

fn token_char(c: char) -> (r: bool)
    ensures
        r == is_token_char(c),
{
    ('0' <= c && c <= '9') || ('a' <= c && c <= 'z') || ('A' <= c && c <= 'Z')
}

/// Replaces every maximal run of ASCII letters and digits that is at least
/// `MIN_HIGH_ENTROPY_RUN` long and mixes digits and letters by
/// `[REDACTED:high_entropy]`; everything else is kept as it is.
pub fn redact_memory_text(text: &str) -> (r: MemoryRedaction)
    ensures
        r.text@ == redacted(text@),
{
    let s = crate::text::chars_of(text);
    let ghost v = s@;
    let marker = crate::text::chars_of("[REDACTED:high_entropy]");
    let mut out: Vec<char> = Vec::new();
    let mut i: usize = 0;
    while i < s.len()
        invariant
            v == s@,
            marker@ == high_entropy_marker(),
            i <= v.len(),
            redacted(v) == out@ + redact_from(v, i as int),
        decreases s.len() - i,
    {
        if !token_char(s[i]) {
            let ghost before = out@;
            out.push(s[i]);
            proof {
                assert(redact_from(v, i as int) == seq![v[i as int]] + redact_from(v, i + 1));
                assert(out@ == before + seq![v[i as int]]);
                assert(before + (seq![v[i as int]] + redact_from(v, i + 1)) =~= out@ + redact_from(v, i + 1));
            }
            i = i + 1;
        } else {
            proof {
                lemma_run_end_bounds(v, i as int);
            }
            let mut j: usize = i;
            let mut has_digit = false;
            let mut has_letter = false;
            while j < s.len() && token_char(s[j])
                invariant
                    v == s@,
                    i < v.len(),
                    i <= j <= run_end(v, i as int),
                    run_end(v, i as int) <= v.len(),
                    forall|k: int| i <= k < run_end(v, i as int) ==> is_token_char(#[trigger] v[k]),
                    run_end(v, i as int) < v.len() ==> !is_token_char(v[run_end(v, i as int)]),
                    has_digit == exists|k: int| i <= k < j && is_ascii_digit(#[trigger] v[k]),
                    has_letter == exists|k: int| i <= k < j && is_ascii_letter(#[trigger] v[k]),
                decreases s.len() - j,
            {
                let c = s[j];
                if '0' <= c && c <= '9' {
                    has_digit = true;
                } else {
                    has_letter = true;
                }
                proof {
                    assert(is_ascii_digit(v[j as int]) || is_ascii_letter(v[j as int]));
                }
                j = j + 1;
            }
            let ghost run = v.subrange(i as int, j as int);
            proof {
                assert(j == run_end(v, i as int));
                assert(has_digit == exists|k: int| 0 <= k < run.len() && is_ascii_digit(#[trigger] run[k])) by {
                    if has_digit {
                        let k = choose|k: int| i <= k < j && is_ascii_digit(#[trigger] v[k]);
                        assert(run[k - i] == v[k]);
                    }
                    if exists|k: int| 0 <= k < run.len() && is_ascii_digit(#[trigger] run[k]) {
                        let k = choose|k: int| 0 <= k < run.len() && is_ascii_digit(#[trigger] run[k]);
                        assert(run[k] == v[k + i]);
                    }
                }
                assert(has_letter == exists|k: int| 0 <= k < run.len() && is_ascii_letter(#[trigger] run[k])) by {
                    if has_letter {
                        let k = choose|k: int| i <= k < j && is_ascii_letter(#[trigger] v[k]);
                        assert(run[k - i] == v[k]);
                    }
                    if exists|k: int| 0 <= k < run.len() && is_ascii_letter(#[trigger] run[k]) {
                        let k = choose|k: int| 0 <= k < run.len() && is_ascii_letter(#[trigger] run[k]);
                        assert(run[k] == v[k + i]);
                    }
                }
                assert(redact_from(v, i as int) == redact_run(v, i as int));
            }
            let ghost before = out@;
            if j - i >= MIN_HIGH_ENTROPY_RUN && has_digit && has_letter {
                let mut m: usize = 0;
                while m < marker.len()
                    invariant
                        marker@ == high_entropy_marker(),
                        m <= marker@.len(),
                        out@ == before + marker@.subrange(0, m as int),
                    decreases marker.len() - m,
                {
                    out.push(marker[m]);
                    assert(marker@.subrange(0, m + 1) =~= marker@.subrange(0, m as int).push(marker@[m as int]));
                    m = m + 1;
                }
                assert(marker@.subrange(0, marker@.len() as int) =~= marker@);
            } else {
                let mut m: usize = i;
                while m < j
                    invariant
                        v == s@,
                        i <= m <= j <= v.len(),
                        out@ == before + v.subrange(i as int, m as int),
                    decreases j - m,
                {
                    out.push(s[m]);
                    assert(v.subrange(i as int, m + 1) =~= v.subrange(i as int, m as int).push(v[m as int]));
                    m = m + 1;
                }
            }
            proof {
                let piece = if high_entropy(run) { high_entropy_marker() } else { run };
                assert(out@ == before + piece);
                assert(before + (piece + redact_from(v, j as int)) =~= out@ + redact_from(v, j as int));
            }
            i = j;
        }
    }
    assert(out@ + redact_from(v, i as int) =~= out@);
    MemoryRedaction { text: crate::text::string_of(&out) }
}

/// From index `i` on, the text holds no high-entropy run: what redaction
/// leaves unchanged.
pub open spec fn plain_from(s: Seq<char>, i: int) -> bool
    decreases s.len() - i, 1int,
{
    if i < 0 || i >= s.len() {
        true
    } else if !is_token_char(s[i]) {
        plain_from(s, i + 1)
    } else {
        plain_run(s, i)
    }
}

pub open spec fn plain_run(s: Seq<char>, i: int) -> bool
    decreases s.len() - i, 0int,
{
    if 0 <= i < s.len() && is_token_char(s[i]) {
        let j = run_end(s, i);
        proof {
            lemma_run_end_bounds(s, i);
            lemma_run_end_bounds(s, i + 1);
        }
        !high_entropy(s.subrange(i, j)) && plain_from(s, j)
    } else {
        true
    }
}

/// Redaction leaves a text without high-entropy runs as it is.
pub proof fn lemma_plain_unchanged(s: Seq<char>, i: int)
    requires
        0 <= i <= s.len(),
        plain_from(s, i),
    ensures
        redact_from(s, i) == s.subrange(i, s.len() as int),
    decreases s.len() - i,
{
    if i < s.len() {
        if !is_token_char(s[i]) {
            lemma_plain_unchanged(s, i + 1);
            assert(s.subrange(i, s.len() as int) =~= seq![s[i]] + s.subrange(i + 1, s.len() as int));
        } else {
            lemma_run_end_bounds(s, i);
            let j = run_end(s, i);
            assert(plain_from(s, i) == plain_run(s, i));
            assert(redact_from(s, i) == redact_run(s, i));
            lemma_plain_unchanged(s, j);
            assert(s.subrange(i, s.len() as int) =~= s.subrange(i, j) + s.subrange(j, s.len() as int));
        }
    } else {
        assert(s.subrange(i, s.len() as int) =~= Seq::<char>::empty());
    }
}

/// A text shorter than `MIN_HIGH_ENTROPY_RUN` holds no high-entropy run.
proof fn lemma_short_plain(s: Seq<char>, i: int)
    requires
        0 <= i,
        s.len() < MIN_HIGH_ENTROPY_RUN,
    ensures
        plain_from(s, i),
    decreases s.len() - i,
{
    if i < s.len() {
        if !is_token_char(s[i]) {
            lemma_short_plain(s, i + 1);
        } else {
            lemma_run_end_bounds(s, i);
            lemma_short_plain(s, run_end(s, i));
            assert(plain_from(s, i) == plain_run(s, i));
        }
    }
}

/// Runs look only forward: behind a prefix they end where they ended alone.
proof fn lemma_run_end_shift(p: Seq<char>, q: Seq<char>, k: int)
    requires
        0 <= k <= q.len(),
    ensures
        run_end(p + q, p.len() + k) == p.len() + run_end(q, k),
    decreases q.len() - k,
{
    if k < q.len() && is_token_char(q[k]) {
        assert((p + q)[p.len() + k] == q[k]);
        lemma_run_end_shift(p, q, k + 1);
    } else if k < q.len() {
        assert((p + q)[p.len() + k] == q[k]);
    }
}

proof fn lemma_plain_shift(p: Seq<char>, q: Seq<char>, k: int)
    requires
        0 <= k <= q.len(),
    ensures
        plain_from(p + q, p.len() + k) == plain_from(q, k),
    decreases q.len() - k,
{
    if k < q.len() {
        assert((p + q)[p.len() + k] == q[k]);
        if !is_token_char(q[k]) {
            lemma_plain_shift(p, q, k + 1);
        } else {
            lemma_run_end_bounds(q, k);
            lemma_run_end_shift(p, q, k);
            let j = run_end(q, k);
            lemma_plain_shift(p, q, j);
            assert(plain_from(q, k) == plain_run(q, k));
            assert(plain_from(p + q, p.len() + k) == plain_run(p + q, p.len() + k));
            assert((p + q).subrange(p.len() + k, p.len() + j) =~= q.subrange(k, j));
        }
    }
}

/// Runs that stop inside `p`, or at its end when `q` starts with no token
/// character, end at the same place in `p + q`.
proof fn lemma_run_end_prefix(p: Seq<char>, q: Seq<char>, k: int)
    requires
        0 <= k <= p.len(),
        run_end(p, k) < p.len() || q.len() == 0 || !is_token_char(q[0]),
    ensures
        run_end(p + q, k) == run_end(p, k),
    decreases p.len() - k,
{
    lemma_run_end_bounds(p, k);
    if k < p.len() {
        assert((p + q)[k] == p[k]);
        if is_token_char(p[k]) {
            lemma_run_end_prefix(p, q, k + 1);
        }
    } else if q.len() > 0 {
        assert((p + q)[k] == q[0]);
    }
}

/// A plain text that ends with no token character, followed by a plain
/// text, is plain.
proof fn lemma_plain_concat(p: Seq<char>, q: Seq<char>, k: int)
    requires
        0 <= k <= p.len(),
        plain_from(p, k),
        plain_from(q, 0),
        p.len() == 0 || !is_token_char(p.last()),
    ensures
        plain_from(p + q, k),
    decreases p.len() - k,
{
    if k == p.len() {
        lemma_plain_shift(p, q, 0);
    } else {
        assert((p + q)[k] == p[k]);
        if !is_token_char(p[k]) {
            lemma_plain_concat(p, q, k + 1);
        } else {
            lemma_run_end_bounds(p, k);
            let j = run_end(p, k);
            assert(plain_from(p, k) == plain_run(p, k));
            assert(plain_from(p + q, k) == plain_run(p + q, k));
            assert(j < p.len());
            lemma_run_end_prefix(p, q, k);
            assert((p + q).subrange(k, j) =~= p.subrange(k, j));
            lemma_plain_concat(p, q, j);
        }
    }
}

/// A run of token characters followed by a text that starts with no token
/// character: the run ends where the text begins.
proof fn lemma_run_then_plain(p: Seq<char>, q: Seq<char>)
    requires
        p.len() > 0,
        forall|k: int| 0 <= k < p.len() ==> is_token_char(#[trigger] p[k]),
        !high_entropy(p),
        plain_from(q, 0),
        q.len() == 0 || !is_token_char(q[0]),
    ensures
        plain_from(p + q, 0),
{
    assert(run_end(p, p.len() as int) == p.len());
    assert forall|k: int| 0 <= k <= p.len() implies run_end(p, k) == p.len() by {
        lemma_run_end_all_tokens(p, k);
    }
    lemma_run_end_prefix(p, q, 0);
    assert((p + q)[0] == p[0]);
    assert(plain_from(p + q, 0) == plain_run(p + q, 0));
    assert((p + q).subrange(0, p.len() as int) =~= p);
    lemma_plain_shift(p, q, 0);
}

proof fn lemma_run_end_all_tokens(p: Seq<char>, k: int)
    requires
        0 <= k <= p.len(),
        forall|m: int| 0 <= m < p.len() ==> is_token_char(#[trigger] p[m]),
    ensures
        run_end(p, k) == p.len(),
    decreases p.len() - k,
{
    if k < p.len() {
        lemma_run_end_all_tokens(p, k + 1);
    }
}

/// Redacted text holds no high-entropy run.
pub proof fn lemma_redacted_plain(s: Seq<char>, i: int)
    requires
        0 <= i <= s.len(),
    ensures
        plain_from(redact_from(s, i), 0),
    decreases s.len() - i,
{
    if i < s.len() {
        if !is_token_char(s[i]) {
            lemma_redacted_plain(s, i + 1);
            let r = redact_from(s, i + 1);
            lemma_plain_shift(seq![s[i]], r, 0);
            assert((seq![s[i]] + r)[0] == s[i]);
        } else {
            lemma_run_end_bounds(s, i);
            let j = run_end(s, i);
            assert(redact_from(s, i) == redact_run(s, i));
            lemma_redacted_plain(s, j);
            let r = redact_from(s, j);
            if j < s.len() {
                lemma_run_end_bounds(s, j);
                assert(r[0] == s[j]);
            }
            let run = s.subrange(i, j);
            if high_entropy(run) {
                let m = high_entropy_marker();
                reveal_strlit("[REDACTED:high_entropy]");
                assert(m.len() == 23);
                lemma_short_plain(m, 0);
                assert(m.last() == ']');
                lemma_plain_concat(m, r, 0);
            } else {
                lemma_run_then_plain(run, r);
            }
        }
    }
}

/// Whitespace is never part of a token run.
proof fn lemma_ws_not_token(c: char)
    requires
        crate::text::is_ws(c),
    ensures
        !is_token_char(c),
{
}

/// A plain text stays plain from every position that starts a run or
/// follows a non-token character.
proof fn lemma_plain_reaches(w: Seq<char>, k: int, a: int)
    requires
        0 <= k <= a <= w.len(),
        plain_from(w, k),
        a == k || !is_token_char(w[a - 1]),
    ensures
        plain_from(w, a),
    decreases a - k,
{
    if k < a {
        if !is_token_char(w[k]) {
            lemma_plain_reaches(w, k + 1, a);
        } else {
            lemma_run_end_bounds(w, k);
            let j = run_end(w, k);
            assert(plain_from(w, k) == plain_run(w, k));
            if j > a {
                assert(is_token_char(w[a - 1]));
            }
            lemma_plain_reaches(w, j, a);
        }
    }
}

/// The part of a plain text between non-token characters is plain.
pub proof fn lemma_plain_subrange(w: Seq<char>, a: int, b: int)
    requires
        0 <= a <= b <= w.len(),
        plain_from(w, 0),
        a == 0 || !is_token_char(w[a - 1]),
        b == w.len() || !is_token_char(w[b]),
    ensures
        plain_from(w.subrange(a, b), 0),
{
    lemma_plain_reaches(w, 0, a);
    let p = w.subrange(0, a);
    let mq = w.subrange(a, w.len() as int);
    assert(w =~= p + mq);
    lemma_plain_shift(p, mq, 0);
    let m = w.subrange(a, b);
    let q = w.subrange(b, w.len() as int);
    assert(mq =~= m + q);
    if b < w.len() {
        assert(q[0] == w[b]);
    }
    lemma_plain_prefix(m, q, 0);
}

proof fn lemma_plain_prefix(m: Seq<char>, q: Seq<char>, k: int)
    requires
        0 <= k <= m.len(),
        plain_from(m + q, k),
        q.len() == 0 || !is_token_char(q[0]),
    ensures
        plain_from(m, k),
    decreases m.len() - k,
{
    if k < m.len() {
        assert((m + q)[k] == m[k]);
        if !is_token_char(m[k]) {
            lemma_plain_prefix(m, q, k + 1);
        } else {
            lemma_run_end_bounds(m, k);
            lemma_run_end_prefix(m, q, k);
            let j = run_end(m, k);
            assert(plain_from(m, k) == plain_run(m, k));
            assert(plain_from(m + q, k) == plain_run(m + q, k));
            assert((m + q).subrange(k, j) =~= m.subrange(k, j));
            lemma_plain_prefix(m, q, j);
        }
    }
}

/// Redacting a redacted and trimmed text changes nothing.
pub proof fn lemma_trimmed_redaction_fixed(v: Seq<char>)
    ensures
        redacted(crate::text::trim(redacted(v))) == crate::text::trim(redacted(v)),
{
    let w = redacted(v);
    lemma_redacted_plain(v, 0);
    crate::text::lemma_lead_ws_bounds(w, 0);
    let a = crate::text::lead_ws(w, 0);
    crate::text::lemma_trail_ws_bounds(w, a, w.len() as int);
    let b = crate::text::trail_ws(w, a, w.len() as int);
    if a > 0 {
        lemma_ws_not_token(w[a - 1]);
    }
    if b < w.len() {
        lemma_ws_not_token(w[b]);
    }
    lemma_plain_subrange(w, a, b);
    let t = w.subrange(a, b);
    lemma_plain_unchanged(t, 0);
    assert(t.subrange(0, t.len() as int) =~= t);
}

/// Redacting twice gives what redacting once gives: nothing that redaction
/// leaves behind looks like a secret.
pub proof fn law_redaction_is_idempotent(s: Seq<char>)
    ensures
        redacted(redacted(s)) == redacted(s),
{
    lemma_redacted_plain(s, 0);
    lemma_plain_unchanged(redacted(s), 0);
    assert(redacted(s).subrange(0, redacted(s).len() as int) =~= redacted(s));
}

} // verus!
