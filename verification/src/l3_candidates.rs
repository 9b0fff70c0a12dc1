//! Admission of current project (L2) memory items as candidates for global
//! (L3) memory: only decisions and conclusions backed by available evidence,
//! grouped by title, and promoted as a global rule (with a user reference)
//! or as a cross-project pattern (with two projects and two sessions).

use vstd::prelude::*;
use crate::adapters::{ascii_lowercase, to_ascii_lowercase};
use crate::consolidation::{
    category_text, L3CandidateReferenceView, L3PromotionCandidate, MemoryItemCategory, MemoryItemStatus,
    MemoryPromotionNomination,
};
use crate::models::clone_opt;
use crate::order::{lemma_lex_antisym, lemma_lex_range, lemma_lex_trans, lemma_lex_zero, lex_compare, lex_order};
use crate::script_catalog::str_eq;
use crate::text::{chars_of, contains_sub, contains_vec, lowercase, opt_view, string_of, to_lowercase_text, trim, trim_vec};

verus! {

/// A current L2 memory item with its current revision, as stored.
pub struct L2MemoryRow {
    pub item_id: String,
    pub project_key: String,
    pub revision_id: String,
    pub category: String,
    pub status: String,
    pub title: String,
    pub summary: String,
    pub rationale: String,
    pub promotion_nomination: String,
}

/// A source reference of an L2 revision, as stored.
pub struct L2ReferenceRow {
    pub item_revision_id: String,
    pub project_key: String,
    pub source_id: String,
    pub session_id: String,
    pub reference_key: String,
    pub question_id: Option<String>,
    pub turn_id: Option<String>,
    pub part_id: Option<String>,
    pub node_id: Option<String>,
    pub source_revision: i64,
    pub availability: String,
    pub unavailable_reason: Option<String>,
}

/// The category a stored name stands for; unknown names are progress.
pub open spec fn category_named(name: Seq<char>) -> MemoryItemCategory {
    if name == "decision"@ {
        MemoryItemCategory::Decision
    } else if name == "research"@ {
        MemoryItemCategory::Research
    } else if name == "verification"@ {
        MemoryItemCategory::Verification
    } else if name == "blocker"@ {
        MemoryItemCategory::Blocker
    } else if name == "follow_up"@ {
        MemoryItemCategory::FollowUp
    } else {
        MemoryItemCategory::Progress
    }
}

pub fn parse_category(name: &str) -> (r: MemoryItemCategory)
    ensures
        r == category_named(name@),
{
    if str_eq(name, "decision") {
        MemoryItemCategory::Decision
    } else if str_eq(name, "research") {
        MemoryItemCategory::Research
    } else if str_eq(name, "verification") {
        MemoryItemCategory::Verification
    } else if str_eq(name, "blocker") {
        MemoryItemCategory::Blocker
    } else if str_eq(name, "follow_up") {
        MemoryItemCategory::FollowUp
    } else {
        MemoryItemCategory::Progress
    }
}

/// Every category's stored name parses back to that category, so a stored
/// `verification`, `decision`, `research`, `blocker` or `follow_up` is never
/// read as progress; and a name that parses to a category other than
/// progress is that category's stored name.
pub proof fn law_category_names_round_trip(c: MemoryItemCategory, name: Seq<char>)
    ensures
        category_named(category_text(c)) == c,
        category_named(name) != MemoryItemCategory::Progress ==> name == category_text(category_named(name)),
{
    reveal_strlit("decision");
    reveal_strlit("research");
    reveal_strlit("verification");
    reveal_strlit("blocker");
    reveal_strlit("follow_up");
    reveal_strlit("progress");
    assert("decision"@.len() == 8);
    assert("research"@.len() == 8);
    assert("verification"@.len() == 12);
    assert("blocker"@.len() == 7);
    assert("follow_up"@.len() == 9);
    assert("progress"@.len() == 8);
    assert("decision"@[0] != "research"@[0]);
    assert("decision"@[0] != "progress"@[0]);
    assert("research"@[0] != "progress"@[0]);
}

/// An L2 row whose stored category is any category but progress is looked
/// at for promotion, unless its title is already a current global memory
/// title.
pub proof fn law_non_progress_rows_are_considered(
    rows: Seq<L2MemoryRow>,
    existing: Seq<Seq<char>>,
    i: int,
    c: MemoryItemCategory,
)
    requires
        0 <= i < rows.len(),
        rows[i].category@ == category_text(c),
        c != MemoryItemCategory::Progress,
        !existing.contains(title_key(rows[i].title@)),
    ensures
        row_considered(rows, existing, i),
{
    law_category_names_round_trip(c, rows[i].category@);
}

/// The status a stored name stands for; unknown names are active.
pub open spec fn status_named(name: Seq<char>) -> MemoryItemStatus {
    if name == "blocked"@ {
        MemoryItemStatus::Blocked
    } else if name == "waiting"@ {
        MemoryItemStatus::Waiting
    } else if name == "completed"@ {
        MemoryItemStatus::Completed
    } else if name == "verified"@ {
        MemoryItemStatus::Verified
    } else if name == "abandoned"@ {
        MemoryItemStatus::Abandoned
    } else if name == "superseded"@ {
        MemoryItemStatus::Superseded
    } else {
        MemoryItemStatus::Active
    }
}

pub fn parse_status(name: &str) -> (r: MemoryItemStatus)
    ensures
        r == status_named(name@),
{
    if str_eq(name, "blocked") {
        MemoryItemStatus::Blocked
    } else if str_eq(name, "waiting") {
        MemoryItemStatus::Waiting
    } else if str_eq(name, "completed") {
        MemoryItemStatus::Completed
    } else if str_eq(name, "verified") {
        MemoryItemStatus::Verified
    } else if str_eq(name, "abandoned") {
        MemoryItemStatus::Abandoned
    } else if str_eq(name, "superseded") {
        MemoryItemStatus::Superseded
    } else {
        MemoryItemStatus::Active
    }
}

/// The nomination a stored name stands for; unknown names nominate nothing.
pub open spec fn nomination_named(name: Seq<char>) -> MemoryPromotionNomination {
    if name == "global_rule"@ {
        MemoryPromotionNomination::GlobalRule
    } else if name == "cross_project_pattern"@ {
        MemoryPromotionNomination::CrossProjectPattern
    } else if name == "project_decision"@ {
        MemoryPromotionNomination::ProjectDecision
    } else if name == "project_constraint"@ {
        MemoryPromotionNomination::ProjectConstraint
    } else if name == "recurring_blocker"@ {
        MemoryPromotionNomination::RecurringBlocker
    } else if name == "recurring_todo"@ {
        MemoryPromotionNomination::RecurringTodo
    } else if name == "research_conclusion"@ {
        MemoryPromotionNomination::ResearchConclusion
    } else {
        MemoryPromotionNomination::NoNomination
    }
}

pub fn parse_nomination(name: &str) -> (r: MemoryPromotionNomination)
    ensures
        r == nomination_named(name@),
{
    if str_eq(name, "global_rule") {
        MemoryPromotionNomination::GlobalRule
    } else if str_eq(name, "cross_project_pattern") {
        MemoryPromotionNomination::CrossProjectPattern
    } else if str_eq(name, "project_decision") {
        MemoryPromotionNomination::ProjectDecision
    } else if str_eq(name, "project_constraint") {
        MemoryPromotionNomination::ProjectConstraint
    } else if str_eq(name, "recurring_blocker") {
        MemoryPromotionNomination::RecurringBlocker
    } else if str_eq(name, "recurring_todo") {
        MemoryPromotionNomination::RecurringTodo
    } else if str_eq(name, "research_conclusion") {
        MemoryPromotionNomination::ResearchConclusion
    } else {
        MemoryPromotionNomination::NoNomination
    }
}

/// A reference is the user's when it points at a question or a turn, or its
/// key mentions `user` in any ASCII case.
pub open spec fn user_reference(r: L2ReferenceRow) -> bool {
    r.question_id is Some || r.turn_id is Some || contains_sub(
        ascii_lowercase(r.reference_key@),
        "user"@,
    )
}

/// The candidate reference view of a stored reference: its fields, the
/// `user` role for a user reference, available when so recorded.
pub open spec fn reference_from_row(v: L3CandidateReferenceView, r: L2ReferenceRow) -> bool {
    &&& v.project_key == r.project_key
    &&& v.source_id == r.source_id
    &&& v.session_id == r.session_id
    &&& v.reference_key == r.reference_key
    &&& opt_view(v.role) == if user_reference(r) {
        Some("user"@)
    } else {
        None
    }
    &&& v.question_id == r.question_id
    &&& v.turn_id == r.turn_id
    &&& v.part_id == r.part_id
    &&& v.node_id == r.node_id
    &&& v.source_revision == r.source_revision
    &&& v.available == (r.availability@ == "available"@)
    &&& v.unavailable_reason == r.unavailable_reason
}

pub fn reference_view_of(r: &L2ReferenceRow) -> (v: L3CandidateReferenceView)
    ensures
        reference_from_row(v, *r),
{
    let user = r.question_id.is_some() || r.turn_id.is_some() || contains_vec(
        &to_ascii_lowercase(&chars_of(r.reference_key.as_str())),
        &chars_of("user"),
    );
    L3CandidateReferenceView {
        project_key: r.project_key.clone(),
        source_id: r.source_id.clone(),
        session_id: r.session_id.clone(),
        reference_key: r.reference_key.clone(),
        role: if user {
            Some(String::from_str("user"))
        } else {
            None
        },
        question_id: clone_opt(&r.question_id),
        turn_id: clone_opt(&r.turn_id),
        part_id: clone_opt(&r.part_id),
        node_id: clone_opt(&r.node_id),
        source_revision: r.source_revision,
        available: str_eq(r.availability.as_str(), "available"),
        unavailable_reason: clone_opt(&r.unavailable_reason),
    }
}


/// The key items are grouped by: the trimmed title, lower-cased.
pub open spec fn title_key(title: Seq<char>) -> Seq<char> {
    lowercase(trim(title))
}

/// Texts of a list of strings.
pub open spec fn texts(v: Seq<String>) -> Seq<Seq<char>> {
    v.map_values(|x: String| x@)
}

/// Row `i` is looked at: its title is not already a current global memory
/// title, and it records more than progress.
pub open spec fn row_considered(rows: Seq<L2MemoryRow>, existing: Seq<Seq<char>>, i: int) -> bool {
    &&& !existing.contains(title_key(rows[i].title@))
    &&& category_named(rows[i].category@) != MemoryItemCategory::Progress
}

/// Revisions of the rows looked at among the first `n`.
pub open spec fn considered_revisions(rows: Seq<L2MemoryRow>, existing: Seq<Seq<char>>, n: int) -> Seq<Seq<char>>
    decreases n,
{
    if n <= 0 {
        Seq::empty()
    } else if row_considered(rows, existing, n - 1) {
        considered_revisions(rows, existing, n - 1).push(rows[n - 1].revision_id@)
    } else {
        considered_revisions(rows, existing, n - 1)
    }
}

/// Indices of the references of revision `rev` among the first `n`.
pub open spec fn refs_of_revision(refs: Seq<L2ReferenceRow>, rev: Seq<char>, n: int) -> Seq<int>
    decreases n,
{
    if n <= 0 {
        Seq::empty()
    } else if refs[n - 1].item_revision_id@ == rev {
        refs_of_revision(refs, rev, n - 1).push(n - 1)
    } else {
        refs_of_revision(refs, rev, n - 1)
    }
}

/// The references row `i` brings: those of its revision, unless a row looked
/// at earlier had the same revision and took them.
pub open spec fn row_refs(rows: Seq<L2MemoryRow>, existing: Seq<Seq<char>>, refs: Seq<L2ReferenceRow>, i: int) -> Seq<int> {
    if considered_revisions(rows, existing, i).contains(rows[i].revision_id@) {
        Seq::empty()
    } else {
        refs_of_revision(refs, rows[i].revision_id@, refs.len() as int)
    }
}

/// The reference is recorded as available.
pub open spec fn ref_available(r: L2ReferenceRow) -> bool {
    r.availability@ == "available"@
}

/// Some reference of `idx` is available.
pub open spec fn any_available(refs: Seq<L2ReferenceRow>, idx: Seq<int>) -> bool {
    exists|k: int| 0 <= k < idx.len() && ref_available(refs[#[trigger] idx[k]])
}

/// Row `i` joins a group: looked at, and bringing an available reference.
pub open spec fn row_admitted(rows: Seq<L2MemoryRow>, existing: Seq<Seq<char>>, refs: Seq<L2ReferenceRow>, i: int) -> bool {
    row_considered(rows, existing, i) && any_available(refs, row_refs(rows, existing, refs, i))
}

/// Some available reference of `idx` belongs to the project.
pub open spec fn project_supported(refs: Seq<L2ReferenceRow>, idx: Seq<int>, project: Seq<char>) -> bool {
    exists|k: int|
        0 <= k < idx.len() && ref_available(refs[#[trigger] idx[k]]) && refs[idx[k]].project_key@
            == project
}

/// `s` with `x` added at the end unless it is already there.
pub open spec fn add_distinct(s: Seq<Seq<char>>, x: Seq<char>) -> Seq<Seq<char>> {
    if s.contains(x) {
        s
    } else {
        s.push(x)
    }
}

/// `s` with the sessions of the available references among the first `n`
/// of `idx` added.
pub open spec fn add_sessions(s: Seq<Seq<char>>, refs: Seq<L2ReferenceRow>, idx: Seq<int>, n: int) -> Seq<Seq<char>>
    decreases n,
{
    if n <= 0 {
        s
    } else {
        let prev = add_sessions(s, refs, idx, n - 1);
        if ref_available(refs[idx[n - 1]]) {
            add_distinct(prev, refs[idx[n - 1]].session_id@)
        } else {
            prev
        }
    }
}

/// A group's nomination after an item with nomination `n` joins: a global
/// rule wins, then a cross-project pattern.
pub open spec fn upgraded(cur: MemoryPromotionNomination, n: MemoryPromotionNomination) -> MemoryPromotionNomination {
    if n == MemoryPromotionNomination::GlobalRule {
        MemoryPromotionNomination::GlobalRule
    } else if n == MemoryPromotionNomination::CrossProjectPattern && cur
        != MemoryPromotionNomination::GlobalRule {
        MemoryPromotionNomination::CrossProjectPattern
    } else {
        cur
    }
}

/// A group of items sharing a title key: the key, its first row, the
/// supporting projects and sessions (each once), the references of its
/// items, and its nomination.
pub open spec fn absorb(
    g: (Seq<char>, int, Seq<Seq<char>>, Seq<Seq<char>>, Seq<int>, MemoryPromotionNomination),
    rows: Seq<L2MemoryRow>,
    refs: Seq<L2ReferenceRow>,
    i: int,
    idx: Seq<int>,
) -> (Seq<char>, int, Seq<Seq<char>>, Seq<Seq<char>>, Seq<int>, MemoryPromotionNomination) {
    let supported = project_supported(refs, idx, rows[i].project_key@);
    (
        g.0,
        g.1,
        if supported {
            add_distinct(g.2, rows[i].project_key@)
        } else {
            g.2
        },
        if supported {
            add_sessions(g.3, refs, idx, idx.len() as int)
        } else {
            g.3
        },
        g.4 + idx,
        upgraded(g.5, nomination_named(rows[i].promotion_nomination@)),
    )
}

/// Index of the group with the key, if any.
pub open spec fn group_with_key(
    gs: Seq<(Seq<char>, int, Seq<Seq<char>>, Seq<Seq<char>>, Seq<int>, MemoryPromotionNomination)>,
    key: Seq<char>,
    n: int,
) -> Option<int>
    decreases n,
{
    if n <= 0 {
        None
    } else if gs[n - 1].0 == key {
        Some(n - 1)
    } else {
        group_with_key(gs, key, n - 1)
    }
}

/// The groups formed by the first `n` rows, in order of their first row.
pub open spec fn groups(
    rows: Seq<L2MemoryRow>,
    existing: Seq<Seq<char>>,
    refs: Seq<L2ReferenceRow>,
    n: int,
) -> Seq<(Seq<char>, int, Seq<Seq<char>>, Seq<Seq<char>>, Seq<int>, MemoryPromotionNomination)>
    decreases n,
{
    if n <= 0 {
        Seq::empty()
    } else {
        let prev = groups(rows, existing, refs, n - 1);
        let i = n - 1;
        if !row_admitted(rows, existing, refs, i) {
            prev
        } else {
            let key = title_key(rows[i].title@);
            let idx = row_refs(rows, existing, refs, i);
            match group_with_key(prev, key, prev.len() as int) {
                Some(g) => prev.update(g, absorb(prev[g], rows, refs, i, idx)),
                None => prev.push(
                    absorb(
                        (
                            key,
                            i,
                            Seq::empty(),
                            Seq::empty(),
                            Seq::empty(),
                            nomination_named(rows[i].promotion_nomination@),
                        ),
                        rows,
                        refs,
                        i,
                        idx,
                    ),
                ),
            }
        }
    }
}

/// What a group is promoted as, if anything: a global rule when it is
/// nominated so and has an available user reference; otherwise a
/// cross-project pattern when two projects and two sessions support it.
pub open spec fn group_promotion(
    g: (Seq<char>, int, Seq<Seq<char>>, Seq<Seq<char>>, Seq<int>, MemoryPromotionNomination),
    refs: Seq<L2ReferenceRow>,
) -> Option<MemoryPromotionNomination> {
    if g.5 == MemoryPromotionNomination::GlobalRule {
        if exists|k: int|
            0 <= k < g.4.len() && ref_available(refs[#[trigger] g.4[k]]) && user_reference(refs[g.4[k]]) {
            Some(MemoryPromotionNomination::GlobalRule)
        } else {
            None
        }
    } else if g.2.len() >= 2 && g.3.len() >= 2 {
        Some(MemoryPromotionNomination::CrossProjectPattern)
    } else {
        None
    }
}


/// Indices as integers.
pub open spec fn int_seq(v: Seq<usize>) -> Seq<int> {
    v.map_values(|x: usize| x as int)
}

/// A group being built.
struct Group {
    key: Vec<char>,
    first: usize,
    projects: Vec<Vec<char>>,
    sessions: Vec<Vec<char>>,
    refs: Vec<usize>,
    nomination: MemoryPromotionNomination,
}

impl Group {
    spec fn gv(&self) -> (Seq<char>, int, Seq<Seq<char>>, Seq<Seq<char>>, Seq<int>, MemoryPromotionNomination) {
        (
            self.key@,
            self.first as int,
            crate::text::views(self.projects@),
            crate::text::views(self.sessions@),
            int_seq(self.refs@),
            self.nomination,
        )
    }
}

spec fn group_views(gs: Seq<Group>) -> Seq<(Seq<char>, int, Seq<Seq<char>>, Seq<Seq<char>>, Seq<int>, MemoryPromotionNomination)> {
    gs.map_values(|g: Group| g.gv())
}

fn holds_text(v: &Vec<Vec<char>>, x: &[char]) -> (r: bool)
    ensures
        r == crate::text::views(v@).contains(x@),
{
    let ghost vv = crate::text::views(v@);
    let mut i: usize = 0;
    while i < v.len()
        invariant
            i <= v@.len(),
            vv == crate::text::views(v@),
            forall|j: int| 0 <= j < i ==> vv[j] != x@,
        decreases v.len() - i,
    {
        if crate::text::chars_eq(&v[i], x) {
            assert(vv[i as int] == x@);
            return true;
        }
        i = i + 1;
    }
    proof {
        if vv.contains(x@) {
            let k = choose|k: int| 0 <= k < vv.len() && vv[k] == x@;
            assert(vv[k] != x@);
        }
    }
    false
}

fn push_distinct(v: &mut Vec<Vec<char>>, x: Vec<char>)
    ensures
        crate::text::views(final(v)@) == add_distinct(crate::text::views(old(v)@), x@),
{
    if !holds_text(v, &x) {
        let ghost before = crate::text::views(v@);
        v.push(x);
        assert(crate::text::views(v@) =~= before.push(x@));
    }
}

fn revision_refs(refs: &Vec<L2ReferenceRow>, rev: &str) -> (r: Vec<usize>)
    ensures
        int_seq(r@) == refs_of_revision(refs@, rev@, refs@.len() as int),
        forall|k: int| 0 <= k < r@.len() ==> #[trigger] r@[k] < refs@.len(),
{
    let mut out: Vec<usize> = Vec::new();
    let mut m: usize = 0;
    while m < refs.len()
        invariant
            m <= refs@.len(),
            int_seq(out@) == refs_of_revision(refs@, rev@, m as int),
            forall|k: int| 0 <= k < out@.len() ==> #[trigger] out@[k] < refs@.len(),
        decreases refs.len() - m,
    {
        if str_eq(refs[m].item_revision_id.as_str(), rev) {
            assert(int_seq(out@.push(m)) =~= int_seq(out@).push(m as int));
            out.push(m);
        }
        m = m + 1;
    }
    out
}

fn available_among(refs: &Vec<L2ReferenceRow>, idx: &Vec<usize>) -> (r: bool)
    requires
        forall|k: int| 0 <= k < idx@.len() ==> #[trigger] idx@[k] < refs@.len(),
    ensures
        r == any_available(refs@, int_seq(idx@)),
{
    let mut k: usize = 0;
    while k < idx.len()
        invariant
            k <= idx@.len(),
            forall|j: int| 0 <= j < idx@.len() ==> #[trigger] idx@[j] < refs@.len(),
            forall|j: int| 0 <= j < k ==> !ref_available(refs@[#[trigger] int_seq(idx@)[j]]),
        decreases idx.len() - k,
    {
        if str_eq(refs[idx[k]].availability.as_str(), "available") {
            assert(ref_available(refs@[int_seq(idx@)[k as int]]));
            return true;
        }
        k = k + 1;
    }
    false
}

fn supports_project(refs: &Vec<L2ReferenceRow>, idx: &Vec<usize>, project: &str) -> (r: bool)
    requires
        forall|k: int| 0 <= k < idx@.len() ==> #[trigger] idx@[k] < refs@.len(),
    ensures
        r == project_supported(refs@, int_seq(idx@), project@),
{
    let mut k: usize = 0;
    while k < idx.len()
        invariant
            k <= idx@.len(),
            forall|j: int| 0 <= j < idx@.len() ==> #[trigger] idx@[j] < refs@.len(),
            forall|j: int|
                0 <= j < k ==> !(ref_available(refs@[#[trigger] int_seq(idx@)[j]]) && refs@[int_seq(
                    idx@,
                )[j]].project_key@ == project@),
        decreases idx.len() - k,
    {
        let r = &refs[idx[k]];
        if str_eq(r.availability.as_str(), "available") && str_eq(r.project_key.as_str(), project) {
            assert(ref_available(refs@[int_seq(idx@)[k as int]]));
            return true;
        }
        k = k + 1;
    }
    false
}

fn add_available_sessions(sessions: &mut Vec<Vec<char>>, refs: &Vec<L2ReferenceRow>, idx: &Vec<usize>)
    requires
        forall|k: int| 0 <= k < idx@.len() ==> #[trigger] idx@[k] < refs@.len(),
    ensures
        crate::text::views(final(sessions)@) == add_sessions(
            crate::text::views(old(sessions)@),
            refs@,
            int_seq(idx@),
            idx@.len() as int,
        ),
{
    let ghost start = crate::text::views(sessions@);
    let mut k: usize = 0;
    while k < idx.len()
        invariant
            k <= idx@.len(),
            forall|j: int| 0 <= j < idx@.len() ==> #[trigger] idx@[j] < refs@.len(),
            crate::text::views(sessions@) == add_sessions(start, refs@, int_seq(idx@), k as int),
        decreases idx.len() - k,
    {
        let r = &refs[idx[k]];
        if str_eq(r.availability.as_str(), "available") {
            push_distinct(sessions, chars_of(r.session_id.as_str()));
        }
        k = k + 1;
    }
}


fn upgrade_nomination(cur: MemoryPromotionNomination, n: MemoryPromotionNomination) -> (r: MemoryPromotionNomination)
    ensures
        r == upgraded(cur, n),
{
    if n == MemoryPromotionNomination::GlobalRule {
        MemoryPromotionNomination::GlobalRule
    } else if n == MemoryPromotionNomination::CrossProjectPattern && cur
        != MemoryPromotionNomination::GlobalRule {
        MemoryPromotionNomination::CrossProjectPattern
    } else {
        cur
    }
}

fn absorb_row(g: &mut Group, rows: &Vec<L2MemoryRow>, refs: &Vec<L2ReferenceRow>, i: usize, idx: &Vec<usize>)
    requires
        i < rows@.len(),
        forall|k: int| 0 <= k < idx@.len() ==> #[trigger] idx@[k] < refs@.len(),
    ensures
        final(g).gv() == absorb(old(g).gv(), rows@, refs@, i as int, int_seq(idx@)),
        forall|k: int| 0 <= k < old(g).refs@.len() ==> final(g).refs@[k] == old(g).refs@[k],
        final(g).refs@.len() == old(g).refs@.len() + idx@.len(),
        forall|k: int| 0 <= k < idx@.len() ==> final(g).refs@[old(g).refs@.len() + k] == idx@[k],
{
    let row = &rows[i];
    let ghost og = g.gv();
    let supported = supports_project(refs, idx, row.project_key.as_str());
    if supported {
        push_distinct(&mut g.projects, chars_of(row.project_key.as_str()));
        add_available_sessions(&mut g.sessions, refs, idx);
    }
    assert(crate::text::views(g.projects@) == absorb(og, rows@, refs@, i as int, int_seq(idx@)).2);
    assert(crate::text::views(g.sessions@) == absorb(og, rows@, refs@, i as int, int_seq(idx@)).3);
    let ghost before = g.refs@;
    let mut k: usize = 0;
    while k < idx.len()
        invariant
            k <= idx@.len(),
            g.refs@ == before + idx@.take(k as int),
            g.key@ == og.0,
            g.first == og.1,
            g.nomination == og.5,
            crate::text::views(g.projects@) == absorb(og, rows@, refs@, i as int, int_seq(idx@)).2,
            crate::text::views(g.sessions@) == absorb(og, rows@, refs@, i as int, int_seq(idx@)).3,
        decreases idx.len() - k,
    {
        g.refs.push(idx[k]);
        k = k + 1;
        assert(g.refs@ =~= before + idx@.take(k as int));
    }
    assert(idx@.take(idx@.len() as int) =~= idx@);
    assert(int_seq(g.refs@) =~= int_seq(before) + int_seq(idx@));
    g.nomination = upgrade_nomination(g.nomination, parse_nomination(row.promotion_nomination.as_str()));
    let ghost want = absorb(og, rows@, refs@, i as int, int_seq(idx@));
    assert(g.gv().0 == want.0);
    assert(g.gv().1 == want.1);
    assert(g.gv().2 == want.2);
    assert(g.gv().3 == want.3);
    assert(g.gv().4 == want.4);
    assert(g.gv().5 == want.5);
}

fn holds_string(v: &[String], x: &[char]) -> (r: bool)
    ensures
        r == texts(v@).contains(x@),
{
    let ghost vv = texts(v@);
    let mut i: usize = 0;
    while i < v.len()
        invariant
            i <= v@.len(),
            vv == texts(v@),
            forall|j: int| 0 <= j < i ==> vv[j] != x@,
        decreases v.len() - i,
    {
        if crate::text::chars_eq(&chars_of(v[i].as_str()), x) {
            assert(vv[i as int] == x@);
            return true;
        }
        i = i + 1;
    }
    proof {
        if vv.contains(x@) {
            let k = choose|k: int| 0 <= k < vv.len() && vv[k] == x@;
            assert(vv[k] != x@);
        }
    }
    false
}

/// Groups the admitted rows by title key.
fn group_rows(rows: &Vec<L2MemoryRow>, existing: &[String], refs: &Vec<L2ReferenceRow>) -> (r: Vec<Group>)
    ensures
        group_views(r@) == groups(rows@, texts(existing@), refs@, rows@.len() as int),
        forall|g: int| 0 <= g < r@.len() ==> (#[trigger] r@[g]).first < rows@.len(),
        forall|g: int, k: int|
            0 <= g < r@.len() && 0 <= k < r@[g].refs@.len() ==> #[trigger] r@[g].refs@[k] < refs@.len(),
{
    let ghost ex = texts(existing@);
    let mut gs: Vec<Group> = Vec::new();
    let mut consumed: Vec<Vec<char>> = Vec::new();
    let mut i: usize = 0;
    assert(group_views(gs@) =~= Seq::<(Seq<char>, int, Seq<Seq<char>>, Seq<Seq<char>>, Seq<int>, MemoryPromotionNomination)>::empty());
    assert(crate::text::views(consumed@) =~= Seq::<Seq<char>>::empty());
    while i < rows.len()
        invariant
            i <= rows@.len(),
            ex == texts(existing@),
            crate::text::views(consumed@) == considered_revisions(rows@, ex, i as int),
            group_views(gs@) == groups(rows@, ex, refs@, i as int),
            forall|g: int| 0 <= g < gs@.len() ==> (#[trigger] gs@[g]).first < rows@.len(),
            forall|g: int, k: int|
                0 <= g < gs@.len() && 0 <= k < gs@[g].refs@.len() ==> #[trigger] gs@[g].refs@[k] < refs@.len(),
        decreases rows.len() - i,
    {
        let row = &rows[i];
        let key = chars_of(to_lowercase_text(crate::text::trim_str(row.title.as_str()).as_str()).as_str());
        assert(key@ == title_key(rows@[i as int].title@));
        let considered = !holds_string(existing, &key) && parse_category(row.category.as_str())
            != MemoryItemCategory::Progress;
        if considered {
            let rev = chars_of(row.revision_id.as_str());
            let taken = holds_text(&consumed, &rev);
            let idx = if taken {
                Vec::new()
            } else {
                revision_refs(refs, row.revision_id.as_str())
            };
            proof {
                assert(int_seq(idx@) == row_refs(rows@, ex, refs@, i as int)) by {
                    if taken {
                        assert(int_seq(idx@) =~= Seq::<int>::empty());
                    }
                }
            }
            let ghost old_consumed = crate::text::views(consumed@);
            consumed.push(rev);
            assert(crate::text::views(consumed@) =~= old_consumed.push(rows@[i as int].revision_id@));
            if available_among(refs, &idx) {
                let ghost prev = group_views(gs@);
                let mut g: usize = gs.len();
                while g > 0 && !crate::text::chars_eq(&gs[g - 1].key, &key)
                    invariant
                        g <= gs@.len(),
                        prev == group_views(gs@),
                        group_with_key(prev, key@, g as int) == group_with_key(prev, key@, prev.len() as int),
                    decreases g,
                {
                    g = g - 1;
                }
                if g > 0 {
                    let gi = g - 1;
                    let mut grp = gs.remove(gi);
                    absorb_row(&mut grp, rows, refs, i, &idx);
                    gs.insert(gi, grp);
                    proof {
                        assert(group_views(gs@) =~= prev.update(gi as int, absorb(prev[gi as int], rows@, refs@, i as int, int_seq(idx@))));
                        assert forall|h: int, k: int|
                            0 <= h < gs@.len() && 0 <= k < gs@[h].refs@.len() implies #[trigger] gs@[h].refs@[k] < refs@.len() by {
                            if h != gi {
                            } else {
                                if k >= grp.refs@.len() - idx@.len() {
                                    assert(gs@[h].refs@[k] == idx@[k - (grp.refs@.len() - idx@.len())]);
                                }
                            }
                        }
                    }
                } else {
                    let mut grp = Group {
                        key: key,
                        first: i,
                        projects: Vec::new(),
                        sessions: Vec::new(),
                        refs: Vec::new(),
                        nomination: parse_nomination(row.promotion_nomination.as_str()),
                    };
                    assert(grp.gv() == (title_key(rows@[i as int].title@), i as int, Seq::<Seq<char>>::empty(), Seq::<Seq<char>>::empty(), Seq::<int>::empty(), nomination_named(rows@[i as int].promotion_nomination@))) by {
                        assert(crate::text::views(grp.projects@) =~= Seq::<Seq<char>>::empty());
                        assert(crate::text::views(grp.sessions@) =~= Seq::<Seq<char>>::empty());
                        assert(int_seq(grp.refs@) =~= Seq::<int>::empty());
                    }
                    absorb_row(&mut grp, rows, refs, i, &idx);
                    gs.push(grp);
                    proof {
                        assert(group_views(gs@) =~= prev.push(grp.gv()));
                        assert forall|h: int, k: int|
                            0 <= h < gs@.len() && 0 <= k < gs@[h].refs@.len() implies #[trigger] gs@[h].refs@[k] < refs@.len() by {
                            if h == gs@.len() - 1 {
                                assert(gs@[h].refs@[k] == idx@[k]);
                            }
                        }
                    }
                }
            }
        }
        i = i + 1;
    }
    gs
}


proof fn lemma_group_with_key(
    gs: Seq<(Seq<char>, int, Seq<Seq<char>>, Seq<Seq<char>>, Seq<int>, MemoryPromotionNomination)>,
    key: Seq<char>,
    n: int,
)
    requires
        0 <= n <= gs.len(),
    ensures
        match group_with_key(gs, key, n) {
            Some(g) => 0 <= g < n && gs[g].0 == key,
            None => forall|g: int| 0 <= g < n ==> gs[g].0 != key,
        },
    decreases n,
{
    if n > 0 {
        lemma_group_with_key(gs, key, n - 1);
    }
}

proof fn lemma_add_distinct(s: Seq<Seq<char>>, x: Seq<char>)
    requires
        s.no_duplicates(),
    ensures
        add_distinct(s, x).no_duplicates(),
        add_distinct(s, x).contains(x),
        forall|y: Seq<char>| s.contains(y) ==> add_distinct(s, x).contains(y),
        forall|y: Seq<char>| add_distinct(s, x).contains(y) ==> y == x || s.contains(y),
{
    if !s.contains(x) {
        let t = s.push(x);
        assert(t[s.len() as int] == x);
        assert forall|y: Seq<char>| s.contains(y) implies t.contains(y) by {
            let k = choose|k: int| 0 <= k < s.len() && s[k] == y;
            assert(t[k] == y);
        }
        assert forall|y: Seq<char>| t.contains(y) implies y == x || s.contains(y) by {
            let k = choose|k: int| 0 <= k < t.len() && t[k] == y;
            if k < s.len() {
                assert(s[k] == y);
            }
        }
    }
}

proof fn lemma_add_sessions_distinct(s: Seq<Seq<char>>, refs: Seq<L2ReferenceRow>, idx: Seq<int>, n: int)
    requires
        s.no_duplicates(),
    ensures
        add_sessions(s, refs, idx, n).no_duplicates(),
    decreases n,
{
    if n > 0 {
        lemma_add_sessions_distinct(s, refs, idx, n - 1);
        if ref_available(refs[idx[n - 1]]) {
            lemma_add_distinct(add_sessions(s, refs, idx, n - 1), refs[idx[n - 1]].session_id@);
        }
    }
}

/// Groups have distinct keys, each the title key of its first row, and
/// list each supporting project and session once.
pub proof fn lemma_groups_shape(rows: Seq<L2MemoryRow>, existing: Seq<Seq<char>>, refs: Seq<L2ReferenceRow>, n: int)
    requires
        0 <= n <= rows.len(),
    ensures
        ({
            let gs = groups(rows, existing, refs, n);
            &&& forall|a: int, b: int| 0 <= a < b < gs.len() ==> gs[a].0 != gs[b].0
            &&& forall|a: int|
                0 <= a < gs.len() ==> 0 <= (#[trigger] gs[a]).1 < n && gs[a].0 == title_key(
                    rows[gs[a].1].title@,
                ) && gs[a].2.no_duplicates() && gs[a].3.no_duplicates()
        }),
    decreases n,
{
    if n > 0 {
        lemma_groups_shape(rows, existing, refs, n - 1);
        let prev = groups(rows, existing, refs, n - 1);
        let i = n - 1;
        if row_admitted(rows, existing, refs, i) {
            let key = title_key(rows[i].title@);
            let idx = row_refs(rows, existing, refs, i);
            lemma_group_with_key(prev, key, prev.len() as int);
            match group_with_key(prev, key, prev.len() as int) {
                Some(g) => {
                    let ng = absorb(prev[g], rows, refs, i, idx);
                    lemma_add_distinct(prev[g].2, rows[i].project_key@);
                    lemma_add_sessions_distinct(prev[g].3, refs, idx, idx.len() as int);
                },
                None => {
                    let fresh = (
                        key,
                        i,
                        Seq::<Seq<char>>::empty(),
                        Seq::<Seq<char>>::empty(),
                        Seq::<int>::empty(),
                        nomination_named(rows[i].promotion_nomination@),
                    );
                    lemma_add_distinct(fresh.2, rows[i].project_key@);
                    lemma_add_sessions_distinct(fresh.3, refs, idx, idx.len() as int);
                },
            }
        }
    }
}


/// Strictly increasing texts.
pub open spec fn strictly_sorted(v: Seq<Seq<char>>) -> bool {
    forall|i: int, j: int| 0 <= i < j < v.len() ==> lex_order(v[i], v[j]) < 0
}

/// Sorts distinct texts.
fn sort_texts(v: &Vec<Vec<char>>) -> (r: Vec<Vec<char>>)
    requires
        crate::text::views(v@).no_duplicates(),
    ensures
        strictly_sorted(crate::text::views(r@)),
        crate::text::views(r@).no_duplicates(),
        forall|x: Seq<char>| crate::text::views(r@).contains(x) <==> crate::text::views(v@).contains(x),
{
    let ghost vv = crate::text::views(v@);
    let mut out: Vec<Vec<char>> = Vec::new();
    let mut j: usize = 0;
    while j < v.len()
        invariant
            j <= v@.len(),
            vv == crate::text::views(v@),
            vv.no_duplicates(),
            strictly_sorted(crate::text::views(out@)),
            forall|y: Seq<char>| crate::text::views(out@).contains(y) <==> vv.take(j as int).contains(y),
        decreases v.len() - j,
    {
        let x = crate::text::slice_chars(&v[j], 0, v[j].len());
        assert(x@ =~= vv[j as int]);
        let ghost ov = crate::text::views(out@);
        assert(!ov.contains(x@)) by {
            if ov.contains(x@) {
                assert(vv.take(j as int).contains(x@));
                let k = choose|k: int| 0 <= k < j && vv.take(j as int)[k] == x@;
                assert(vv[k] == vv[j as int]);
            }
        }
        let mut p: usize = 0;
        while p < out.len() && lex_compare(&out[p], &x) < 0
            invariant
                p <= out@.len(),
                ov == crate::text::views(out@),
                forall|k: int| 0 <= k < p ==> lex_order(ov[k], x@) < 0,
            decreases out@.len() - p,
        {
            p = p + 1;
        }
        proof {
            if p < ov.len() {
                lemma_lex_range(ov[p as int], x@);
                lemma_lex_zero(ov[p as int], x@);
                assert(ov.contains(ov[p as int]));
                lemma_lex_antisym(ov[p as int], x@);
            }
        }
        out.insert(p, x);
        proof {
            let nv = crate::text::views(out@);
            assert(nv =~= ov.insert(p as int, x@));
            assert forall|a: int, b: int| 0 <= a < b < nv.len() implies lex_order(nv[a], nv[b]) < 0 by {
                if b < p {
                } else if b == p {
                } else if a < p {
                    assert(nv[a] == ov[a] && nv[b] == ov[b - 1]);
                } else if a == p {
                    lemma_lex_antisym(ov[p as int], x@);
                    if b - 1 > p {
                        lemma_lex_trans(x@, ov[p as int], ov[b - 1]);
                    }
                } else {
                }
            }
            let t0 = vv.take(j as int);
            let t1 = vv.take(j + 1);
            assert(t1 =~= t0.push(x@));
            assert forall|y: Seq<char>| nv.contains(y) <==> t1.contains(y) by {
                if nv.contains(y) {
                    let k = choose|k: int| 0 <= k < nv.len() && nv[k] == y;
                    if y != x@ {
                        if k < p {
                            assert(ov[k] == y);
                        } else {
                            assert(ov[k - 1] == y);
                        }
                        assert(ov.contains(y));
                        assert(t0.contains(y));
                        let m = choose|m: int| 0 <= m < t0.len() && t0[m] == y;
                        assert(t1[m] == y);
                    } else {
                        assert(t1[j as int] == y);
                    }
                }
                if t1.contains(y) {
                    let m = choose|m: int| 0 <= m < t1.len() && t1[m] == y;
                    if m < j {
                        assert(t0[m] == y);
                        assert(t0.contains(y));
                        assert(ov.contains(y));
                        let k = choose|k: int| 0 <= k < ov.len() && ov[k] == y;
                        if k < p {
                            assert(nv[k] == y);
                        } else {
                            assert(nv[k + 1] == y);
                        }
                    } else {
                        assert(nv[p as int] == y);
                    }
                }
            }
        }
        j = j + 1;
    }
    assert(vv.take(v@.len() as int) =~= vv);
    proof {
        let rv = crate::text::views(out@);
        assert forall|a: int, b: int| 0 <= a < rv.len() && 0 <= b < rv.len() && a != b implies rv[a] != rv[b] by {
            if a < b {
                lemma_lex_zero(rv[a], rv[b]);
            } else {
                lemma_lex_zero(rv[b], rv[a]);
            }
        }
    }
    out
}


/// `c` is the candidate group `g` is promoted to.
pub open spec fn candidate_for_group(
    c: L3PromotionCandidate,
    g: (Seq<char>, int, Seq<Seq<char>>, Seq<Seq<char>>, Seq<int>, MemoryPromotionNomination),
    rows: Seq<L2MemoryRow>,
    refs: Seq<L2ReferenceRow>,
) -> bool {
    let row = rows[g.1];
    let keys = texts(c.supporting_project_keys@);
    &&& group_promotion(g, refs) == Some(c.nomination)
    &&& c.item_id == row.item_id
    &&& c.item_revision_id == row.revision_id
    &&& c.category == category_named(row.category@)
    &&& c.status == status_named(row.status@)
    &&& c.title == row.title
    &&& c.summary == row.summary
    &&& c.rationale == row.rationale
    &&& keys.no_duplicates()
    &&& forall|x: Seq<char>| keys.contains(x) <==> g.2.contains(x)
    &&& c.nomination == MemoryPromotionNomination::CrossProjectPattern ==> strictly_sorted(keys)
    &&& c.session_references@.len() == g.4.len()
    &&& forall|k: int|
        0 <= k < g.4.len() ==> reference_from_row(#[trigger] c.session_references@[k], refs[g.4[k]])
}

fn is_user_reference(r: &L2ReferenceRow) -> (b: bool)
    ensures
        b == user_reference(*r),
{
    r.question_id.is_some() || r.turn_id.is_some() || contains_vec(
        &to_ascii_lowercase(&chars_of(r.reference_key.as_str())),
        &chars_of("user"),
    )
}

fn text_strings(v: &Vec<Vec<char>>) -> (r: Vec<String>)
    ensures
        texts(r@) == crate::text::views(v@),
{
    let mut out: Vec<String> = Vec::new();
    let mut i: usize = 0;
    while i < v.len()
        invariant
            i <= v@.len(),
            texts(out@) == crate::text::views(v@).take(i as int),
        decreases v.len() - i,
    {
        let t = string_of(&v[i]);
        assert(texts(out@.push(t)) =~= texts(out@).push(t@));
        assert(crate::text::views(v@).take(i + 1) =~= crate::text::views(v@).take(i as int).push(v@[i as int]@));
        out.push(t);
        i = i + 1;
    }
    assert(crate::text::views(v@).take(v@.len() as int) =~= crate::text::views(v@));
    out
}

/// The candidate a group is promoted to, if any.
fn promote_group(g: &Group, rows: &Vec<L2MemoryRow>, refs: &Vec<L2ReferenceRow>) -> (r: Option<L3PromotionCandidate>)
    requires
        g.first < rows@.len(),
        forall|k: int| 0 <= k < g.refs@.len() ==> #[trigger] g.refs@[k] < refs@.len(),
        crate::text::views(g.projects@).no_duplicates(),
    ensures
        match group_promotion(g.gv(), refs@) {
            None => r is None,
            Some(n) => r matches Some(c) && candidate_for_group(c, g.gv(), rows@, refs@),
        },
{
    let ghost gv = g.gv();
    let nomination = if g.nomination == MemoryPromotionNomination::GlobalRule {
        let mut found = false;
        let mut k: usize = 0;
        while k < g.refs.len()
            invariant
                k <= g.refs@.len(),
                gv == g.gv(),
                forall|j: int| 0 <= j < g.refs@.len() ==> #[trigger] g.refs@[j] < refs@.len(),
                found == exists|j: int|
                    0 <= j < k && ref_available(refs@[#[trigger] gv.4[j]]) && user_reference(refs@[gv.4[j]]),
            decreases g.refs.len() - k,
        {
            let r = &refs[g.refs[k]];
            if str_eq(r.availability.as_str(), "available") && is_user_reference(r) {
                assert(ref_available(refs@[gv.4[k as int]]) && user_reference(refs@[gv.4[k as int]]));
                found = true;
            }
            k = k + 1;
        }
        if found {
            MemoryPromotionNomination::GlobalRule
        } else {
            return None;
        }
    } else if g.projects.len() >= 2 && g.sessions.len() >= 2 {
        MemoryPromotionNomination::CrossProjectPattern
    } else {
        return None;
    };
    let row = &rows[g.first];
    let project_keys = if nomination == MemoryPromotionNomination::CrossProjectPattern {
        text_strings(&sort_texts(&g.projects))
    } else {
        text_strings(&g.projects)
    };
    let mut references: Vec<L3CandidateReferenceView> = Vec::new();
    let mut k: usize = 0;
    while k < g.refs.len()
        invariant
            k <= g.refs@.len(),
            gv == g.gv(),
            forall|j: int| 0 <= j < g.refs@.len() ==> #[trigger] g.refs@[j] < refs@.len(),
            references@.len() == k,
            forall|j: int| 0 <= j < k ==> reference_from_row(#[trigger] references@[j], refs@[gv.4[j]]),
        decreases g.refs.len() - k,
    {
        let v = reference_view_of(&refs[g.refs[k]]);
        references.push(v);
        k = k + 1;
    }
    Some(L3PromotionCandidate {
        item_id: row.item_id.clone(),
        item_revision_id: row.revision_id.clone(),
        nomination,
        category: parse_category(row.category.as_str()),
        status: parse_status(row.status.as_str()),
        title: row.title.clone(),
        summary: row.summary.clone(),
        rationale: row.rationale.clone(),
        supporting_project_keys: project_keys,
        session_references: references,
    })
}


/// Titles of candidates.
pub open spec fn candidate_titles(v: Seq<L3PromotionCandidate>) -> Seq<Seq<char>> {
    v.map_values(|c: L3PromotionCandidate| c.title@)
}

/// `r` lists, sorted by title, exactly the candidates of the groups formed
/// from the rows that are promoted.
pub open spec fn is_l3_evaluation(
    r: Seq<L3PromotionCandidate>,
    existing: Seq<Seq<char>>,
    rows: Seq<L2MemoryRow>,
    refs: Seq<L2ReferenceRow>,
) -> bool {
    let gs = groups(rows, existing, refs, rows.len() as int);
    &&& forall|i: int|
        0 <= i < r.len() ==> exists|h: int|
            0 <= h < gs.len() && candidate_for_group(#[trigger] r[i], gs[h], rows, refs)
    &&& forall|h: int|
        0 <= h < gs.len() && (#[trigger] group_promotion(gs[h], refs)) is Some ==> exists|i: int|
            0 <= i < r.len() && candidate_for_group(r[i], gs[h], rows, refs)
    &&& strictly_sorted(candidate_titles(r))
}

/// The promotion candidates among current project memory: the rows are
/// grouped by title key (skipping titles already in current global memory,
/// plain progress, and rows without an available reference); each group is
/// promoted as a global rule or a cross-project pattern when its evidence
/// allows; the candidates come sorted by title.
pub fn evaluate_l3_candidates(
    existing_l3_titles: &[String],
    l2_rows: &Vec<L2MemoryRow>,
    reference_rows: &Vec<L2ReferenceRow>,
) -> (r: Vec<L3PromotionCandidate>)
    ensures
        is_l3_evaluation(r@, texts(existing_l3_titles@), l2_rows@, reference_rows@),
{
    let rows = l2_rows;
    let refs = reference_rows;
    let gs = group_rows(rows, existing_l3_titles, refs);
    let ghost gsv = group_views(gs@);
    proof {
        lemma_groups_shape(rows@, texts(existing_l3_titles@), refs@, rows@.len() as int);
    }
    let mut out: Vec<L3PromotionCandidate> = Vec::new();
    let mut g: usize = 0;
    while g < gs.len()
        invariant
            g <= gs@.len(),
            gsv == group_views(gs@),
            gsv == groups(rows@, texts(existing_l3_titles@), refs@, rows@.len() as int),
            forall|a: int, b: int| 0 <= a < b < gsv.len() ==> gsv[a].0 != gsv[b].0,
            forall|a: int|
                0 <= a < gsv.len() ==> 0 <= (#[trigger] gsv[a]).1 < rows@.len() && gsv[a].0 == title_key(
                    rows@[gsv[a].1].title@,
                ) && gsv[a].2.no_duplicates() && gsv[a].3.no_duplicates(),
            forall|a: int| 0 <= a < gs@.len() ==> (#[trigger] gs@[a]).first < rows@.len(),
            forall|a: int, k: int|
                0 <= a < gs@.len() && 0 <= k < gs@[a].refs@.len() ==> #[trigger] gs@[a].refs@[k] < refs@.len(),
            strictly_sorted(candidate_titles(out@)),
            forall|i: int|
                0 <= i < out@.len() ==> exists|h: int|
                    0 <= h < g && candidate_for_group(#[trigger] out@[i], gsv[h], rows@, refs@),
            forall|h: int|
                0 <= h < g && (#[trigger] group_promotion(gsv[h], refs@)) is Some ==> exists|i: int|
                    0 <= i < out@.len() && candidate_for_group(out@[i], gsv[h], rows@, refs@),
        decreases gs.len() - g,
    {
        assert(gsv[g as int] == gs@[g as int].gv());
        match promote_group(&gs[g], rows, refs) {
            None => {},
            Some(c) => {
                let ghost ot = candidate_titles(out@);
                let ghost old_out = out@;
                assert forall|i: int| 0 <= i < ot.len() implies ot[i] != c.title@ by {
                    let h = choose|h: int| 0 <= h < g && candidate_for_group(old_out[i], gsv[h], rows@, refs@);
                    assert(ot[i] == old_out[i].title@);
                    if ot[i] == c.title@ {
                        assert(gsv[h].0 == gsv[g as int].0);
                    }
                }
                let ct = chars_of(c.title.as_str());
                let mut p: usize = 0;
                while p < out.len() && lex_compare(&chars_of(out[p].title.as_str()), &ct) < 0
                    invariant
                        p <= out@.len(),
                        old_out == out@,
                        ot == candidate_titles(out@),
                        ct@ == c.title@,
                        forall|k: int| 0 <= k < p ==> lex_order(ot[k], c.title@) < 0,
                    decreases out@.len() - p,
                {
                    p = p + 1;
                }
                proof {
                    if p < ot.len() {
                        lemma_lex_range(ot[p as int], c.title@);
                        lemma_lex_zero(ot[p as int], c.title@);
                        lemma_lex_antisym(ot[p as int], c.title@);
                    }
                }
                let ghost cv = c;
                out.insert(p, c);
                proof {
                    let nt = candidate_titles(out@);
                    assert(nt =~= ot.insert(p as int, cv.title@));
                    assert forall|a: int, b: int| 0 <= a < b < nt.len() implies lex_order(nt[a], nt[b]) < 0 by {
                        if b < p {
                        } else if b == p {
                        } else if a < p {
                            assert(nt[a] == ot[a] && nt[b] == ot[b - 1]);
                        } else if a == p {
                            lemma_lex_antisym(ot[p as int], cv.title@);
                            if b - 1 > p {
                                lemma_lex_trans(cv.title@, ot[p as int], ot[b - 1]);
                            }
                        } else {
                        }
                    }
                    assert forall|i: int| 0 <= i < out@.len() implies exists|h: int|
                        0 <= h < g + 1 && candidate_for_group(#[trigger] out@[i], gsv[h], rows@, refs@) by {
                        if i < p {
                            assert(out@[i] == old_out[i]);
                            let h = choose|h: int| 0 <= h < g && candidate_for_group(old_out[i], gsv[h], rows@, refs@);
                        } else if i > p {
                            assert(out@[i] == old_out[i - 1]);
                            let h = choose|h: int| 0 <= h < g && candidate_for_group(old_out[i - 1], gsv[h], rows@, refs@);
                        } else {
                            assert(out@[i] == cv);
                        }
                    }
                    assert forall|h: int|
                        0 <= h < g + 1 && (#[trigger] group_promotion(gsv[h], refs@)) is Some implies exists|i: int|
                        0 <= i < out@.len() && candidate_for_group(out@[i], gsv[h], rows@, refs@) by {
                        if h < g {
                            let i = choose|i: int| 0 <= i < old_out.len() && candidate_for_group(old_out[i], gsv[h], rows@, refs@);
                            if i < p {
                                assert(out@[i] == old_out[i]);
                            } else {
                                assert(out@[i + 1] == old_out[i]);
                            }
                        } else {
                            assert(out@[p as int] == cv);
                        }
                    }
                }
            },
        }
        g = g + 1;
    }
    out
}


/// Each group's first row was admitted, and each supporting project has an
/// available reference of that project among the group's references.
pub proof fn lemma_groups_support(rows: Seq<L2MemoryRow>, existing: Seq<Seq<char>>, refs: Seq<L2ReferenceRow>, n: int)
    requires
        0 <= n <= rows.len(),
    ensures
        ({
            let gs = groups(rows, existing, refs, n);
            forall|a: int|
                0 <= a < gs.len() ==> row_admitted(rows, existing, refs, (#[trigger] gs[a]).1) && forall|x: Seq<char>|
                    gs[a].2.contains(x) ==> exists|k: int|
                        0 <= k < gs[a].4.len() && ref_available(refs[gs[a].4[k]]) && refs[gs[a].4[k]].project_key@
                            == x
        }),
    decreases n,
{
    if n > 0 {
        lemma_groups_support(rows, existing, refs, n - 1);
        lemma_groups_shape(rows, existing, refs, n - 1);
        let prev = groups(rows, existing, refs, n - 1);
        let i = n - 1;
        if row_admitted(rows, existing, refs, i) {
            let key = title_key(rows[i].title@);
            let idx = row_refs(rows, existing, refs, i);
            lemma_group_with_key(prev, key, prev.len() as int);
            let base = match group_with_key(prev, key, prev.len() as int) {
                Some(g) => prev[g],
                None => (
                    key,
                    i,
                    Seq::<Seq<char>>::empty(),
                    Seq::<Seq<char>>::empty(),
                    Seq::<int>::empty(),
                    nomination_named(rows[i].promotion_nomination@),
                ),
            };
            let ng = absorb(base, rows, refs, i, idx);
            assert forall|x: Seq<char>| ng.2.contains(x) implies exists|k: int|
                0 <= k < ng.4.len() && ref_available(refs[ng.4[k]]) && refs[ng.4[k]].project_key@ == x by {
                let supported = project_supported(refs, idx, rows[i].project_key@);
                if supported && x == rows[i].project_key@ {
                    let k = choose|k: int|
                        0 <= k < idx.len() && ref_available(refs[#[trigger] idx[k]]) && refs[idx[k]].project_key@
                            == rows[i].project_key@;
                    assert(ng.4[base.4.len() + k] == idx[k]);
                } else {
                    if supported {
                        lemma_add_distinct(base.2, rows[i].project_key@);
                    }
                    assert(base.2.contains(x));
                    let k = choose|k: int|
                        0 <= k < base.4.len() && ref_available(refs[base.4[k]]) && refs[base.4[k]].project_key@
                            == x;
                    assert(ng.4[k] == base.4[k]);
                }
            }
        }
    }
}

/// The admission rules of global memory candidates: no candidate records
/// plain progress; every candidate is a global rule or a cross-project
/// pattern; a global rule carries an available user reference; a
/// cross-project pattern names two or more projects, each backed by an
/// available reference of that project.
pub proof fn law_l3_admission_rules(
    r: Seq<L3PromotionCandidate>,
    existing: Seq<Seq<char>>,
    rows: Seq<L2MemoryRow>,
    refs: Seq<L2ReferenceRow>,
)
    requires
        is_l3_evaluation(r, existing, rows, refs),
    ensures
        forall|i: int|
            0 <= i < r.len() ==> {
                let c = #[trigger] r[i];
                &&& c.category != MemoryItemCategory::Progress
                &&& (c.nomination == MemoryPromotionNomination::GlobalRule || c.nomination
                    == MemoryPromotionNomination::CrossProjectPattern)
                &&& (c.nomination == MemoryPromotionNomination::GlobalRule ==> exists|k: int|
                    0 <= k < c.session_references@.len() && c.session_references@[k].available && opt_view(
                        c.session_references@[k].role,
                    ) == Some("user"@))
                &&& (c.nomination == MemoryPromotionNomination::CrossProjectPattern ==> {
                    &&& c.supporting_project_keys@.len() >= 2
                    &&& forall|x: Seq<char>|
                        texts(c.supporting_project_keys@).contains(x) ==> exists|k: int|
                            0 <= k < c.session_references@.len() && c.session_references@[k].available
                                && c.session_references@[k].project_key@ == x
                })
            },
{
    let gs = groups(rows, existing, refs, rows.len() as int);
    lemma_groups_support(rows, existing, refs, rows.len() as int);
    lemma_groups_shape(rows, existing, refs, rows.len() as int);
    assert forall|i: int| 0 <= i < r.len() implies {
        let c = #[trigger] r[i];
        &&& c.category != MemoryItemCategory::Progress
        &&& (c.nomination == MemoryPromotionNomination::GlobalRule || c.nomination
            == MemoryPromotionNomination::CrossProjectPattern)
        &&& (c.nomination == MemoryPromotionNomination::GlobalRule ==> exists|k: int|
            0 <= k < c.session_references@.len() && c.session_references@[k].available && opt_view(
                c.session_references@[k].role,
            ) == Some("user"@))
        &&& (c.nomination == MemoryPromotionNomination::CrossProjectPattern ==> {
            &&& c.supporting_project_keys@.len() >= 2
            &&& forall|x: Seq<char>|
                texts(c.supporting_project_keys@).contains(x) ==> exists|k: int|
                    0 <= k < c.session_references@.len() && c.session_references@[k].available
                        && c.session_references@[k].project_key@ == x
        })
    } by {
        let c = r[i];
        let h = choose|h: int| 0 <= h < gs.len() && candidate_for_group(c, gs[h], rows, refs);
        let g = gs[h];
        assert(row_admitted(rows, existing, refs, g.1));
        if c.nomination == MemoryPromotionNomination::GlobalRule {
            let k = choose|k: int|
                0 <= k < g.4.len() && ref_available(refs[#[trigger] g.4[k]]) && user_reference(refs[g.4[k]]);
            assert(reference_from_row(c.session_references@[k], refs[g.4[k]]));
        }
        if c.nomination == MemoryPromotionNomination::CrossProjectPattern {
            let keys = texts(c.supporting_project_keys@);
            assert(keys.to_set() =~= g.2.to_set());
            keys.unique_seq_to_set();
            g.2.unique_seq_to_set();
            assert forall|x: Seq<char>| keys.contains(x) implies exists|k: int|
                0 <= k < c.session_references@.len() && c.session_references@[k].available
                    && c.session_references@[k].project_key@ == x by {
                assert(g.2.contains(x));
                let k = choose|k: int|
                    0 <= k < g.4.len() && ref_available(refs[g.4[k]]) && refs[g.4[k]].project_key@ == x;
                assert(reference_from_row(c.session_references@[k], refs[g.4[k]]));
            }
        }
    }
}

} // verus!
