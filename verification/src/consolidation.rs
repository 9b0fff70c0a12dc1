//! Global (L3) memory consolidation rules: which references an operation
//! may cite, and which promotion an operation's sources support.

use vstd::prelude::*;
use crate::error::{AppError, AppResult, message_with};
use crate::models::clone_opt;
use crate::script_catalog::str_eq;
use crate::text::{append_chars, chars_of, join_vec, join_with, opt_view, string_of, views};
use crate::hashing::{sha256_hex, sha256_hex_of};
use crate::clock::{elapsed_days, rfc3339_elapsed_days};
use vstd::utf8::encode_utf8;

verus! {

/// What a candidate is nominated to become.
#[derive(Debug, Clone, Copy, PartialEq, Eq, Structural)]
pub enum MemoryPromotionNomination {
    GlobalRule,
    CrossProjectPattern,
    ProjectDecision,
    ProjectConstraint,
    RecurringBlocker,
    RecurringTodo,
    ResearchConclusion,
    NoNomination,
}

/// A session reference supporting a promotion candidate.
#[derive(Debug)]
pub struct L3CandidateReferenceView {
    pub project_key: String,
    pub source_id: String,
    pub session_id: String,
    pub reference_key: String,
    pub role: Option<String>,
    pub question_id: Option<String>,
    pub turn_id: Option<String>,
    pub part_id: Option<String>,
    pub node_id: Option<String>,
    pub source_revision: i64,
    pub available: bool,
    pub unavailable_reason: Option<String>,
}

/// What a memory item records.
#[derive(Debug, Clone, Copy, PartialEq, Eq, Structural)]
pub enum MemoryItemCategory {
    Decision,
    Research,
    Verification,
    Blocker,
    FollowUp,
    Progress,
}

/// Where a memory item stands.
#[derive(Debug, Clone, Copy, PartialEq, Eq, Structural)]
pub enum MemoryItemStatus {
    Active,
    Blocked,
    Waiting,
    Completed,
    Verified,
    Abandoned,
    Superseded,
}

/// A candidate for promotion to global memory.
pub struct L3PromotionCandidate {
    pub item_id: String,
    pub item_revision_id: String,
    pub nomination: MemoryPromotionNomination,
    pub category: MemoryItemCategory,
    pub status: MemoryItemStatus,
    pub title: String,
    pub summary: String,
    pub rationale: String,
    pub supporting_project_keys: Vec<String>,
    pub session_references: Vec<L3CandidateReferenceView>,
}

/// A copy of a reference.
pub fn copy_reference(r: &L3CandidateReferenceView) -> (c: L3CandidateReferenceView)
    ensures
        c == *r,
{
    L3CandidateReferenceView {
        project_key: r.project_key.clone(),
        source_id: r.source_id.clone(),
        session_id: r.session_id.clone(),
        reference_key: r.reference_key.clone(),
        role: clone_opt(&r.role),
        question_id: clone_opt(&r.question_id),
        turn_id: clone_opt(&r.turn_id),
        part_id: clone_opt(&r.part_id),
        node_id: clone_opt(&r.node_id),
        source_revision: r.source_revision,
        available: r.available,
        unavailable_reason: clone_opt(&r.unavailable_reason),
    }
}

/// The available references of the first `n` candidates, candidate by
/// candidate, each candidate's in its order.
pub open spec fn available_references(cands: Seq<L3PromotionCandidate>, n: int) -> Seq<L3CandidateReferenceView>
    decreases n,
{
    if n <= 0 {
        Seq::empty()
    } else {
        available_references(cands, n - 1) + cands[n - 1].session_references@.filter(
            |r: L3CandidateReferenceView| r.available,
        )
    }
}

/// The references an operation of a work order may cite: the available
/// references of all candidates, in order. Looking a key up in this list
/// (the last with the key wins) is looking it up in the map the work order
/// builds from them.
pub fn available_candidate_references(candidates: &Vec<L3PromotionCandidate>) -> (r: Vec<
    L3CandidateReferenceView,
>)
    ensures
        r@ == available_references(candidates@, candidates@.len() as int),
{
    let mut out: Vec<L3CandidateReferenceView> = Vec::new();
    let mut c: usize = 0;
    while c < candidates.len()
        invariant
            c <= candidates@.len(),
            out@ == available_references(candidates@, c as int),
        decreases candidates.len() - c,
    {
        let refs = &candidates[c].session_references;
        let ghost base = out@;
        let mut k: usize = 0;
        while k < refs.len()
            invariant
                k <= refs@.len(),
                refs@ == candidates@[c as int].session_references@,
                out@ == base + refs@.take(k as int).filter(|r: L3CandidateReferenceView| r.available),
            decreases refs.len() - k,
        {
            proof {
                assert(refs@.take(k + 1) =~= refs@.take(k as int).push(refs@[k as int]));
                refs@.take(k as int).lemma_filter_push(refs@[k as int], |r: L3CandidateReferenceView| r.available);
            }
            if refs[k].available {
                out.push(copy_reference(&refs[k]));
                assert(out@ =~= base + refs@.take(k + 1).filter(|r: L3CandidateReferenceView| r.available));
            }
            k = k + 1;
        }
        assert(refs@.take(refs@.len() as int) =~= refs@);
        c = c + 1;
    }
    out
}

/// Index of the last reference with the given key, if any.
pub open spec fn last_with_key(refs: Seq<L3CandidateReferenceView>, key: Seq<char>, n: int) -> Option<int>
    decreases n,
{
    if n <= 0 {
        None
    } else if refs[n - 1].reference_key@ == key {
        Some(n - 1)
    } else {
        last_with_key(refs, key, n - 1)
    }
}

/// The reference an operation cites: the one with its key among the work
/// order's references (the last when several share it); outside a strict
/// work order an unknown key becomes a placeholder reference to global
/// evidence; in a strict one it is refused.
pub fn resolve_global_reference(
    references: &[L3CandidateReferenceView],
    reference_key: &str,
    strict: bool,
) -> (r: AppResult<L3CandidateReferenceView>)
    ensures
        match last_with_key(references@, reference_key@, references@.len() as int) {
            Some(i) => r == Ok::<L3CandidateReferenceView, AppError>(references@[i]),
            None => if strict {
                r matches Err(e) && e is Validation && e->Validation_0@
                    == "MEMORY_OUTPUT_INVALID: global reference is outside the Work Order: "@
                    + reference_key@
            } else {
                r matches Ok(v) && v.project_key@ == "unassigned"@ && v.source_id@ == "global"@
                    && v.session_id@ == "global_evidence"@ && v.reference_key@ == reference_key@
                    && v.role is None && v.question_id is None && v.turn_id is None
                    && v.part_id is None && v.node_id is None && v.source_revision == 1
                    && v.available && v.unavailable_reason is None
            },
        },
{
    let mut k: usize = references.len();
    while k > 0
        invariant
            k <= references@.len(),
            last_with_key(references@, reference_key@, references@.len() as int) == last_with_key(
                references@,
                reference_key@,
                k as int,
            ),
        decreases k,
    {
        if str_eq(references[k - 1].reference_key.as_str(), reference_key) {
            return Ok(copy_reference(&references[k - 1]));
        }
        k = k - 1;
    }
    if strict {
        return Err(AppError::Validation(message_with(
            "MEMORY_OUTPUT_INVALID: global reference is outside the Work Order: ",
            reference_key,
        )));
    }
    Ok(L3CandidateReferenceView {
        project_key: String::from_str("unassigned"),
        source_id: String::from_str("global"),
        session_id: String::from_str("global_evidence"),
        reference_key: String::from_str(reference_key),
        role: None,
        question_id: None,
        turn_id: None,
        part_id: None,
        node_id: None,
        source_revision: 1,
        available: true,
        unavailable_reason: None,
    })
}


/// Texts of a list of references keys given by an operation.
pub open spec fn key_views(v: Seq<String>) -> Seq<Seq<char>> {
    v.map_values(|x: String| x@)
}

/// A reference counts for an operation when it is available and the
/// operation cites its key.
pub open spec fn reference_matches(r: L3CandidateReferenceView, source_refs: Seq<Seq<char>>) -> bool {
    r.available && source_refs.contains(r.reference_key@)
}

/// A project key that names a real project.
pub open spec fn real_project(k: Seq<char>) -> bool {
    k.len() > 0 && k != "unassigned"@
}

/// What one candidate supports for an operation: a global rule when a
/// matching reference is the user's; a cross-project pattern when matching
/// references span two real projects; else nothing.
pub open spec fn candidate_supports(c: L3PromotionCandidate, source_refs: Seq<Seq<char>>) -> Option<MemoryPromotionNomination> {
    let refs = c.session_references@;
    if !(exists|i: int| 0 <= i < refs.len() && reference_matches(#[trigger] refs[i], source_refs)) {
        None
    } else {
        match c.nomination {
            MemoryPromotionNomination::GlobalRule => if exists|i: int|
                0 <= i < refs.len() && reference_matches(#[trigger] refs[i], source_refs)
                    && opt_view(refs[i].role) == Some("user"@) {
                Some(MemoryPromotionNomination::GlobalRule)
            } else {
                None
            },
            MemoryPromotionNomination::CrossProjectPattern => if exists|i: int, j: int|
                0 <= i < refs.len() && 0 <= j < refs.len() && reference_matches(
                    #[trigger] refs[i],
                    source_refs,
                ) && reference_matches(#[trigger] refs[j], source_refs) && real_project(
                    refs[i].project_key@,
                ) && real_project(refs[j].project_key@) && refs[i].project_key@
                    != refs[j].project_key@ {
                Some(MemoryPromotionNomination::CrossProjectPattern)
            } else {
                None
            },
            _ => None,
        }
    }
}

/// The promotion the first supporting candidate gives, from index `i` on.
pub open spec fn promotion_from(cands: Seq<L3PromotionCandidate>, source_refs: Seq<Seq<char>>, i: int) -> MemoryPromotionNomination
    decreases cands.len() - i,
{
    if i < 0 || i >= cands.len() {
        MemoryPromotionNomination::NoNomination
    } else {
        match candidate_supports(cands[i], source_refs) {
            Some(n) => n,
            None => promotion_from(cands, source_refs, i + 1),
        }
    }
}

fn cites(source_refs: &[String], key: &String) -> (r: bool)
    ensures
        r == key_views(source_refs@).contains(key@),
{
    let ghost v = key_views(source_refs@);
    let mut i: usize = 0;
    while i < source_refs.len()
        invariant
            i <= source_refs@.len(),
            v == key_views(source_refs@),
            forall|j: int| 0 <= j < i ==> v[j] != key@,
        decreases source_refs.len() - i,
    {
        if str_eq(source_refs[i].as_str(), key.as_str()) {
            assert(v[i as int] == key@);
            return true;
        }
        i = i + 1;
    }
    proof {
        if v.contains(key@) {
            let k = choose|k: int| 0 <= k < v.len() && v[k] == key@;
            assert(v[k] != key@);
        }
    }
    false
}

fn is_real_project(k: &String) -> (r: bool)
    ensures
        r == real_project(k@),
{
    k.unicode_len() > 0 && !str_eq(k.as_str(), "unassigned")
}

fn is_user_role(role: &Option<String>) -> (r: bool)
    ensures
        r == (opt_view(*role) == Some("user"@)),
{
    match role {
        Some(t) => str_eq(t.as_str(), "user"),
        None => false,
    }
}

fn candidate_support(c: &L3PromotionCandidate, source_refs: &[String]) -> (r: Option<MemoryPromotionNomination>)
    ensures
        r == candidate_supports(*c, key_views(source_refs@)),
{
    let ghost sr = key_views(source_refs@);
    let refs = &c.session_references;
    let mut any = false;
    let mut user = false;
    let mut first_project: Option<usize> = None;
    let mut two_projects = false;
    let mut i: usize = 0;
    while i < refs.len()
        invariant
            i <= refs@.len(),
            sr == key_views(source_refs@),
            refs@ == c.session_references@,
            any == exists|a: int| 0 <= a < i && reference_matches(#[trigger] refs@[a], sr),
            user == exists|a: int|
                0 <= a < i && reference_matches(#[trigger] refs@[a], sr) && opt_view(refs@[a].role)
                    == Some("user"@),
            match first_project {
                Some(f) => f < i && reference_matches(refs@[f as int], sr) && real_project(
                    refs@[f as int].project_key@,
                ),
                None => forall|a: int|
                    0 <= a < i && reference_matches(#[trigger] refs@[a], sr) ==> !real_project(
                        refs@[a].project_key@,
                    ),
            },
            !two_projects ==> forall|a: int, b: int|
                0 <= a < i && 0 <= b < i && reference_matches(#[trigger] refs@[a], sr)
                    && reference_matches(#[trigger] refs@[b], sr) && real_project(refs@[a].project_key@)
                    && real_project(refs@[b].project_key@) ==> refs@[a].project_key@
                    == refs@[b].project_key@,
            two_projects ==> exists|a: int, b: int|
                0 <= a < refs@.len() && 0 <= b < refs@.len() && reference_matches(
                    #[trigger] refs@[a],
                    sr,
                ) && reference_matches(#[trigger] refs@[b], sr) && real_project(
                    refs@[a].project_key@,
                ) && real_project(refs@[b].project_key@) && refs@[a].project_key@
                    != refs@[b].project_key@,
        decreases refs.len() - i,
    {
        let r = &refs[i];
        if r.available && cites(source_refs, &r.reference_key) {
            assert(reference_matches(refs@[i as int], sr));
            any = true;
            if is_user_role(&r.role) {
                user = true;
            }
            if is_real_project(&r.project_key) {
                match first_project {
                    None => {
                        first_project = Some(i);
                    },
                    Some(f) => {
                        if !str_eq(refs[f].project_key.as_str(), r.project_key.as_str()) {
                            two_projects = true;
                        }
                    },
                }
            }
        }
        i = i + 1;
    }
    if !any {
        return None;
    }
    match c.nomination {
        MemoryPromotionNomination::GlobalRule => if user {
            Some(MemoryPromotionNomination::GlobalRule)
        } else {
            None
        },
        MemoryPromotionNomination::CrossProjectPattern => if two_projects {
            Some(MemoryPromotionNomination::CrossProjectPattern)
        } else {
            None
        },
        _ => None,
    }
}

/// The promotion an operation's cited sources support: the first candidate
/// that supports one decides; none when no candidate does.
pub fn promotion_nomination_for_source_refs(
    candidates: &[L3PromotionCandidate],
    source_refs: &[String],
) -> (r: MemoryPromotionNomination)
    ensures
        r == promotion_from(candidates@, key_views(source_refs@), 0),
{
    let mut i: usize = 0;
    while i < candidates.len()
        invariant
            i <= candidates@.len(),
            promotion_from(candidates@, key_views(source_refs@), 0) == promotion_from(
                candidates@,
                key_views(source_refs@),
                i as int,
            ),
        decreases candidates.len() - i,
    {
        if let Some(n) = candidate_support(&candidates[i], source_refs) {
            return n;
        }
        i = i + 1;
    }
    MemoryPromotionNomination::NoNomination
}


/// Some candidate's cited, available reference is the user's.
pub open spec fn user_rule_support(cands: Seq<L3PromotionCandidate>, source_refs: Seq<Seq<char>>) -> bool {
    exists|c: int, k: int|
        0 <= c < cands.len() && 0 <= k < cands[c].session_references@.len()
            && cands[c].nomination == MemoryPromotionNomination::GlobalRule && reference_matches(
            #[trigger] cands[c].session_references@[k],
            source_refs,
        ) && opt_view(cands[c].session_references@[k].role) == Some("user"@)
}

/// Some candidate's cited, available references span two real projects.
pub open spec fn cross_project_support(cands: Seq<L3PromotionCandidate>, source_refs: Seq<Seq<char>>) -> bool {
    exists|c: int, a: int, b: int|
        0 <= c < cands.len() && 0 <= a < cands[c].session_references@.len() && 0 <= b
            < cands[c].session_references@.len() && cands[c].nomination
            == MemoryPromotionNomination::CrossProjectPattern && reference_matches(
            #[trigger] cands[c].session_references@[a],
            source_refs,
        ) && reference_matches(#[trigger] cands[c].session_references@[b], source_refs)
            && real_project(cands[c].session_references@[a].project_key@) && real_project(
            cands[c].session_references@[b].project_key@,
        ) && cands[c].session_references@[a].project_key@
            != cands[c].session_references@[b].project_key@
}

proof fn lemma_promotion_supported_from(cands: Seq<L3PromotionCandidate>, source_refs: Seq<Seq<char>>, i: int)
    requires
        0 <= i,
    ensures
        promotion_from(cands, source_refs, i) == MemoryPromotionNomination::GlobalRule
            || promotion_from(cands, source_refs, i) == MemoryPromotionNomination::CrossProjectPattern
            || promotion_from(cands, source_refs, i) == MemoryPromotionNomination::NoNomination,
        promotion_from(cands, source_refs, i) == MemoryPromotionNomination::GlobalRule
            ==> user_rule_support(cands, source_refs),
        promotion_from(cands, source_refs, i) == MemoryPromotionNomination::CrossProjectPattern
            ==> cross_project_support(cands, source_refs),
    decreases cands.len() - i,
{
    if i < cands.len() {
        match candidate_supports(cands[i], source_refs) {
            Some(n) => {
                let refs = cands[i].session_references@;
                if n == MemoryPromotionNomination::GlobalRule {
                    let k = choose|k: int|
                        0 <= k < refs.len() && reference_matches(#[trigger] refs[k], source_refs)
                            && opt_view(refs[k].role) == Some("user"@);
                    assert(reference_matches(cands[i].session_references@[k], source_refs));
                }
                if n == MemoryPromotionNomination::CrossProjectPattern {
                    let (a, b) = choose|a: int, b: int|
                        0 <= a < refs.len() && 0 <= b < refs.len() && reference_matches(
                            #[trigger] refs[a],
                            source_refs,
                        ) && reference_matches(#[trigger] refs[b], source_refs) && real_project(
                            refs[a].project_key@,
                        ) && real_project(refs[b].project_key@) && refs[a].project_key@
                            != refs[b].project_key@;
                    assert(reference_matches(cands[i].session_references@[a], source_refs));
                    assert(reference_matches(cands[i].session_references@[b], source_refs));
                }
            },
            None => {
                lemma_promotion_supported_from(cands, source_refs, i + 1);
            },
        }
    }
}

/// An operation is nominated as a global rule only when a global-rule
/// candidate has a cited, available reference from the user; as a
/// cross-project pattern only when a cross-project candidate's cited,
/// available references come from two real projects; and never as any
/// other kind.
pub proof fn law_promotion_is_supported(cands: Seq<L3PromotionCandidate>, source_refs: Seq<Seq<char>>)
    ensures
        promotion_from(cands, source_refs, 0) == MemoryPromotionNomination::GlobalRule
            || promotion_from(cands, source_refs, 0) == MemoryPromotionNomination::CrossProjectPattern
            || promotion_from(cands, source_refs, 0) == MemoryPromotionNomination::NoNomination,
        promotion_from(cands, source_refs, 0) == MemoryPromotionNomination::GlobalRule
            ==> user_rule_support(cands, source_refs),
        promotion_from(cands, source_refs, 0) == MemoryPromotionNomination::CrossProjectPattern
            ==> cross_project_support(cands, source_refs),
{
    lemma_promotion_supported_from(cands, source_refs, 0);
}


/// An operation on global memory proposed by the consolidation agent.
pub enum GlobalConsolidationOperation {
    Create {
        category: MemoryItemCategory,
        title: String,
        statement: String,
        rationale: String,
        source_refs: Vec<String>,
    },
    Revise { item_id: String, statement: String, rationale: String, source_refs: Vec<String> },
    Supersede {
        old_item_id: String,
        replacement_title: String,
        replacement_statement: String,
        rationale: String,
        category: MemoryItemCategory,
        source_refs: Vec<String>,
    },
    Keep { item_id: String },
}

/// The references an operation cites; a kept item cites none.
pub open spec fn operation_refs(op: GlobalConsolidationOperation) -> Option<Seq<String>> {
    match op {
        GlobalConsolidationOperation::Create { source_refs, .. } => Some(source_refs@),
        GlobalConsolidationOperation::Revise { source_refs, .. } => Some(source_refs@),
        GlobalConsolidationOperation::Supersede { source_refs, .. } => Some(source_refs@),
        GlobalConsolidationOperation::Keep { .. } => None,
    }
}

/// An operation is in scope when it keeps an item, or cites references that
/// support a global rule or a cross-project pattern.
pub open spec fn operation_in_scope(op: GlobalConsolidationOperation, cands: Seq<L3PromotionCandidate>) -> bool {
    match operation_refs(op) {
        None => true,
        Some(refs) => refs.len() > 0 && promotion_from(cands, key_views(refs), 0)
            != MemoryPromotionNomination::NoNomination,
    }
}

/// Under strict validation, every operation must be in scope.
pub fn validate_consolidation_operations(
    operations: &Vec<GlobalConsolidationOperation>,
    candidates: &[L3PromotionCandidate],
    strict: bool,
) -> (r: AppResult<()>)
    ensures
        if !strict || forall|i: int| 0 <= i < operations@.len() ==> operation_in_scope(
            #[trigger] operations@[i],
            candidates@,
        ) {
            r is Ok
        } else {
            r matches Err(e) && e is Validation && e->Validation_0@
                == "MEMORY_OUTPUT_INVALID: global operation has no valid global or cross-project scope"@
        },
{
    if !strict {
        return Ok(());
    }
    let mut i: usize = 0;
    while i < operations.len()
        invariant
            strict,
            i <= operations@.len(),
            forall|j: int| 0 <= j < i ==> operation_in_scope(#[trigger] operations@[j], candidates@),
        decreases operations.len() - i,
    {
        let refs = match &operations[i] {
            GlobalConsolidationOperation::Create { source_refs, .. } => Some(source_refs),
            GlobalConsolidationOperation::Revise { source_refs, .. } => Some(source_refs),
            GlobalConsolidationOperation::Supersede { source_refs, .. } => Some(source_refs),
            GlobalConsolidationOperation::Keep { .. } => None,
        };
        if let Some(source_refs) = refs {
            if source_refs.len() == 0 || promotion_nomination_for_source_refs(candidates, source_refs.as_slice())
                == MemoryPromotionNomination::NoNomination {
                assert(!operation_in_scope(operations@[i as int], candidates@));
                return Err(AppError::Validation(String::from_str(
                    "MEMORY_OUTPUT_INVALID: global operation has no valid global or cross-project scope",
                )));
            }
        }
        i = i + 1;
    }
    Ok(())
}

/// The nomination recorded for an operation: what its references support
/// under strict validation, else a global rule.
pub fn operation_nomination(
    candidates: &[L3PromotionCandidate],
    source_refs: &[String],
    strict: bool,
) -> (r: MemoryPromotionNomination)
    ensures
        r == if strict {
            promotion_from(candidates@, key_views(source_refs@), 0)
        } else {
            MemoryPromotionNomination::GlobalRule
        },
{
    if strict {
        promotion_nomination_for_source_refs(candidates, source_refs)
    } else {
        MemoryPromotionNomination::GlobalRule
    }
}

/// The keys of a candidate's available references, in order.
pub open spec fn available_keys(refs: Seq<L3CandidateReferenceView>) -> Seq<Seq<char>>
    decreases refs.len(),
{
    if refs.len() == 0 {
        Seq::empty()
    } else if refs.last().available {
        available_keys(refs.drop_last()).push(refs.last().reference_key@)
    } else {
        available_keys(refs.drop_last())
    }
}

/// The creation a candidate turns into without an agent: its category,
/// title, summary and rationale, citing its available references.
pub open spec fn is_default_operation(op: GlobalConsolidationOperation, c: L3PromotionCandidate) -> bool {
    match op {
        GlobalConsolidationOperation::Create { category, title, statement, rationale, source_refs } => {
            &&& category == c.category
            &&& title == c.title
            &&& statement == c.summary
            &&& rationale == c.rationale
            &&& key_views(source_refs@) == available_keys(c.session_references@)
        },
        _ => false,
    }
}

/// Without an agent, each candidate becomes a creation of its title and
/// summary, citing its available references.
pub fn default_consolidation_operations(candidates: &[L3PromotionCandidate]) -> (r: Vec<GlobalConsolidationOperation>)
    ensures
        r@.len() == candidates@.len(),
        forall|i: int| 0 <= i < r@.len() ==> is_default_operation(#[trigger] r@[i], candidates@[i]),
{
    let mut out: Vec<GlobalConsolidationOperation> = Vec::new();
    let mut i: usize = 0;
    while i < candidates.len()
        invariant
            i <= candidates@.len(),
            out@.len() == i,
            forall|j: int| 0 <= j < i ==> is_default_operation(#[trigger] out@[j], candidates@[j]),
        decreases candidates.len() - i,
    {
        let c = &candidates[i];
        let mut keys: Vec<String> = Vec::new();
        let mut k: usize = 0;
        while k < c.session_references.len()
            invariant
                k <= c.session_references@.len(),
                key_views(keys@) == available_keys(c.session_references@.take(k as int)),
            decreases c.session_references.len() - k,
        {
            proof {
                assert(c.session_references@.take(k + 1).drop_last() =~= c.session_references@.take(k as int));
            }
            if c.session_references[k].available {
                let key = c.session_references[k].reference_key.clone();
                assert(key_views(keys@.push(key)) =~= key_views(keys@).push(key@));
                keys.push(key);
            }
            k = k + 1;
        }
        assert(c.session_references@.take(c.session_references@.len() as int) =~= c.session_references@);
        out.push(GlobalConsolidationOperation::Create {
            category: c.category,
            title: c.title.clone(),
            statement: c.summary.clone(),
            rationale: c.rationale.clone(),
            source_refs: keys,
        });
        i = i + 1;
    }
    out
}

/// The stored name of a category.
pub open spec fn category_text(c: MemoryItemCategory) -> Seq<char> {
    match c {
        MemoryItemCategory::Decision => "decision"@,
        MemoryItemCategory::Research => "research"@,
        MemoryItemCategory::Verification => "verification"@,
        MemoryItemCategory::Blocker => "blocker"@,
        MemoryItemCategory::FollowUp => "follow_up"@,
        MemoryItemCategory::Progress => "progress"@,
    }
}

pub fn category_label(c: MemoryItemCategory) -> (r: &'static str)
    ensures
        r@ == category_text(c),
{
    match c {
        MemoryItemCategory::Decision => "decision",
        MemoryItemCategory::Research => "research",
        MemoryItemCategory::Verification => "verification",
        MemoryItemCategory::Blocker => "blocker",
        MemoryItemCategory::FollowUp => "follow_up",
        MemoryItemCategory::Progress => "progress",
    }
}

/// The evidence fingerprint of a global memory revision: the SHA-256 of its
/// title followed by its statement.
pub fn evidence_fingerprint(title: &str, statement: &str) -> (r: String)
    ensures
        r@ == sha256_hex(encode_utf8(title@) + encode_utf8(statement@)),
{
    let mut bytes: Vec<u8> = Vec::new();
    let t = title.as_bytes();
    let st = statement.as_bytes();
    let mut i: usize = 0;
    while i < t.len()
        invariant
            i <= t@.len(),
            t@ == encode_utf8(title@),
            bytes@ == t@.take(i as int),
        decreases t.len() - i,
    {
        bytes.push(t[i]);
        i = i + 1;
        assert(bytes@ =~= t@.take(i as int));
    }
    let mut j: usize = 0;
    while j < st.len()
        invariant
            j <= st@.len(),
            t@ == encode_utf8(title@),
            st@ == encode_utf8(statement@),
            bytes@ == t@ + st@.take(j as int),
        decreases st.len() - j,
    {
        bytes.push(st[j]);
        j = j + 1;
        assert(bytes@ =~= t@ + st@.take(j as int));
    }
    assert(t@.take(t@.len() as int) =~= t@);
    assert(st@.take(st@.len() as int) =~= st@);
    sha256_hex_of(bytes.as_slice())
}

/// The revision hash of global memory: the SHA-256 of the current revision
/// ids joined with `:`, or of `l3-empty-<tenant>` when there are none.
pub open spec fn l3_revision_hash_of(revision_ids: Seq<Seq<char>>, tenant_id: Seq<char>) -> Seq<char> {
    let joined = join_with(revision_ids, ":"@);
    sha256_hex(encode_utf8(if joined.len() == 0 {
        "l3-empty-"@ + tenant_id
    } else {
        joined
    }))
}

pub fn l3_revision_hash(revision_ids: &[String], tenant_id: &str) -> (r: String)
    ensures
        r@ == l3_revision_hash_of(key_views(revision_ids@), tenant_id@),
{
    let mut parts: Vec<Vec<char>> = Vec::new();
    let mut i: usize = 0;
    while i < revision_ids.len()
        invariant
            i <= revision_ids@.len(),
            views(parts@) == key_views(revision_ids@).take(i as int),
        decreases revision_ids.len() - i,
    {
        let p = chars_of(revision_ids[i].as_str());
        assert(views(parts@.push(p)) =~= views(parts@).push(p@));
        assert(key_views(revision_ids@).take(i + 1) =~= key_views(revision_ids@).take(i as int).push(p@));
        parts.push(p);
        i = i + 1;
    }
    assert(key_views(revision_ids@).take(revision_ids@.len() as int) =~= key_views(revision_ids@));
    let joined = join_vec(&parts, &chars_of(":"));
    let input = if joined.len() == 0 {
        let mut t = chars_of("l3-empty-");
        append_chars(&mut t, &chars_of(tenant_id));
        t
    } else {
        joined
    };
    let text = string_of(&input);
    sha256_hex_of(text.as_str().as_bytes())
}


/// Whether global consolidation runs now: never without candidates; always
/// for a manual rebuild or with eight or more candidates; otherwise when it
/// never succeeded, its last success cannot be read, or it is a week old.
pub open spec fn consolidation_due(candidates_count: nat, is_manual_rebuild: bool, last_success: Option<Seq<char>>, now: Seq<char>) -> bool {
    if candidates_count == 0 {
        false
    } else if is_manual_rebuild {
        true
    } else if candidates_count >= 8 {
        true
    } else {
        match last_success {
            None => true,
            Some(l) => match rfc3339_elapsed_days(now, l) {
                None => true,
                Some(d) => d >= 7,
            },
        }
    }
}

pub fn should_trigger_global_consolidation(
    candidates_count: usize,
    now: &str,
    is_manual_rebuild: bool,
    last_success: Option<&str>,
) -> (r: bool)
    ensures
        r == consolidation_due(
            candidates_count as nat,
            is_manual_rebuild,
            match last_success {
                Some(l) => Some(l@),
                None => None,
            },
            now@,
        ),
{
    if candidates_count == 0 {
        return false;
    }
    if is_manual_rebuild {
        return true;
    }
    if candidates_count >= 8 {
        return true;
    }
    match last_success {
        None => true,
        Some(l) => match elapsed_days(now, l) {
            None => true,
            Some(d) => d >= 7,
        },
    }
}

/// Global consolidation never runs without candidates, and a manual rebuild
/// or eight candidates always make it run.
pub proof fn law_consolidation_trigger_gate(
    candidates_count: nat,
    is_manual_rebuild: bool,
    last_success: Option<Seq<char>>,
    now: Seq<char>,
)
    ensures
        candidates_count == 0 ==> !consolidation_due(candidates_count, is_manual_rebuild, last_success, now),
        candidates_count > 0 && (is_manual_rebuild || candidates_count >= 8) ==> consolidation_due(
            candidates_count,
            is_manual_rebuild,
            last_success,
            now,
        ),
{
}

/// Whether a consolidation run goes on past its gate: operations given by
/// the caller always do; otherwise the trigger rule decides.
pub fn consolidation_should_run(
    custom_operations_given: bool,
    candidates_count: usize,
    now: &str,
    is_manual_rebuild: bool,
    last_success: Option<&str>,
) -> (r: bool)
    ensures
        r == (custom_operations_given || consolidation_due(
            candidates_count as nat,
            is_manual_rebuild,
            match last_success {
                Some(l) => Some(l@),
                None => None,
            },
            now@,
        )),
{
    custom_operations_given || should_trigger_global_consolidation(candidates_count, now, is_manual_rebuild, last_success)
}

/// A run is skipped when its input is exactly the one last consolidated,
/// unless it is a manual rebuild.
pub fn consolidation_input_unchanged(last_fingerprint: Option<&str>, input_fingerprint: &str, is_manual_rebuild: bool) -> (r: bool)
    ensures
        r == (!is_manual_rebuild && match last_fingerprint {
            Some(f) => f@ == input_fingerprint@,
            None => false,
        }),
{
    match last_fingerprint {
        Some(f) => !is_manual_rebuild && crate::script_catalog::str_eq(f, input_fingerprint),
        None => false,
    }
}

/// The moments at which a frozen work order is checked against the live
/// evidence.
#[derive(Debug, Clone, Copy, PartialEq, Eq, Structural)]
pub enum WorkOrderCheckpoint {
    AfterEnqueue,
    BeforeExecution,
    BeforeCommit,
}

/// What the stale-work-order error says at each checkpoint.
pub open spec fn stale_message(at: WorkOrderCheckpoint) -> Seq<char> {
    match at {
        WorkOrderCheckpoint::AfterEnqueue => "global maintenance evidence changed after enqueue"@,
        WorkOrderCheckpoint::BeforeExecution => "global maintenance evidence changed before execution"@,
        WorkOrderCheckpoint::BeforeCommit => "global maintenance evidence changed before commit"@,
    }
}

/// A frozen work order stays valid while the live evidence has the same
/// fingerprint (and, when it is first checked, belongs to the same tenant).
pub fn check_work_order_fresh(
    at: WorkOrderCheckpoint,
    frozen_tenant_id: &str,
    tenant_id: &str,
    frozen_fingerprint: &str,
    live_fingerprint: &str,
) -> (r: AppResult<()>)
    ensures
        ((at == WorkOrderCheckpoint::AfterEnqueue && frozen_tenant_id@ != tenant_id@) || frozen_fingerprint@
            != live_fingerprint@) ==> (r matches Err(AppError::Domain { code, message, retryable, details }) && code@
            == "MEMORY_WORK_ORDER_STALE"@ && message@ == stale_message(at) && !retryable && details is None),
        !((at == WorkOrderCheckpoint::AfterEnqueue && frozen_tenant_id@ != tenant_id@) || frozen_fingerprint@
            != live_fingerprint@) ==> r is Ok,
{
    let tenant_changed = at == WorkOrderCheckpoint::AfterEnqueue && !crate::script_catalog::str_eq(frozen_tenant_id, tenant_id);
    if tenant_changed || !crate::script_catalog::str_eq(frozen_fingerprint, live_fingerprint) {
        let message = match at {
            WorkOrderCheckpoint::AfterEnqueue => String::from_str("global maintenance evidence changed after enqueue"),
            WorkOrderCheckpoint::BeforeExecution => String::from_str(
                "global maintenance evidence changed before execution",
            ),
            WorkOrderCheckpoint::BeforeCommit => String::from_str("global maintenance evidence changed before commit"),
        };
        return Err(AppError::Domain {
            code: String::from_str("MEMORY_WORK_ORDER_STALE"),
            message,
            retryable: false,
            details: None,
        });
    }
    Ok(())
}

/// The operations a run commits: those the caller gave, else those the
/// agent answered, else one creation per admitted candidate.
pub fn choose_consolidation_operations(
    custom_operations: Option<Vec<GlobalConsolidationOperation>>,
    agent_operations: Option<Vec<GlobalConsolidationOperation>>,
    candidates: &[L3PromotionCandidate],
) -> (r: Vec<GlobalConsolidationOperation>)
    ensures
        custom_operations matches Some(ops) ==> r@ == ops@,
        custom_operations is None ==> (agent_operations matches Some(ops) ==> r@ == ops@),
        custom_operations is None && agent_operations is None ==> r@.len() == candidates@.len() && forall|i: int|
            0 <= i < candidates@.len() ==> is_default_operation(#[trigger] r@[i], candidates@[i]),
{
    match custom_operations {
        Some(ops) => ops,
        None => match agent_operations {
            Some(ops) => ops,
            None => default_consolidation_operations(candidates),
        },
    }
}

/// What a consolidation run learned at its last step.
#[derive(Debug, Clone, Copy, PartialEq, Eq, Structural)]
pub enum ConsolidationEvent {
    /// The live input was loaded; a frozen work order was checked against
    /// it (never stale without one).
    InputLoaded { stale: bool },
    /// Whether the run passes its gate, as `consolidation_should_run` answers.
    GateDecided { run: bool },
    /// With the tenant's lock held, the input to execute was loaded and a
    /// frozen work order checked again.
    ExecutionInputChecked { stale: bool },
    /// The input's fingerprint was compared with the last consolidated one
    /// (`consolidation_input_unchanged`).
    FingerprintCompared { unchanged: bool },
    /// The operations were obtained (given, from the agent, or by default);
    /// the agent may have failed.
    OperationsObtained { failed: bool },
    /// The live input was checked a last time against a frozen work order.
    CommitInputChecked { stale: bool },
}

/// What a consolidation run does next.
#[derive(Debug, Clone, Copy, PartialEq, Eq, Structural)]
pub enum ConsolidationAction {
    /// Decide whether the run goes on.
    CheckGate,
    /// Take the tenant's lock and load the input to execute.
    LockAndLoadExecutionInput,
    /// Compare the input's fingerprint with the last consolidated one.
    CompareFingerprint,
    /// Get the operations to commit.
    ObtainOperations,
    /// Check the live input a last time before committing.
    CheckBeforeCommit,
    /// Validate the operations and commit them in one transaction.
    ValidateAndCommit,
    /// Nothing to do: finish the job's lease and return the current view.
    FinishWithCurrentView,
    /// The work order went stale at this checkpoint.
    FailStale(WorkOrderCheckpoint),
    /// Getting the operations failed.
    FailOperations,
}

/// The step after each event of a consolidation run.
pub open spec fn next_consolidation_action(event: ConsolidationEvent) -> ConsolidationAction {
    match event {
        ConsolidationEvent::InputLoaded { stale } => if stale {
            ConsolidationAction::FailStale(WorkOrderCheckpoint::AfterEnqueue)
        } else {
            ConsolidationAction::CheckGate
        },
        ConsolidationEvent::GateDecided { run } => if run {
            ConsolidationAction::LockAndLoadExecutionInput
        } else {
            ConsolidationAction::FinishWithCurrentView
        },
        ConsolidationEvent::ExecutionInputChecked { stale } => if stale {
            ConsolidationAction::FailStale(WorkOrderCheckpoint::BeforeExecution)
        } else {
            ConsolidationAction::CompareFingerprint
        },
        ConsolidationEvent::FingerprintCompared { unchanged } => if unchanged {
            ConsolidationAction::FinishWithCurrentView
        } else {
            ConsolidationAction::ObtainOperations
        },
        ConsolidationEvent::OperationsObtained { failed } => if failed {
            ConsolidationAction::FailOperations
        } else {
            ConsolidationAction::CheckBeforeCommit
        },
        ConsolidationEvent::CommitInputChecked { stale } => if stale {
            ConsolidationAction::FailStale(WorkOrderCheckpoint::BeforeCommit)
        } else {
            ConsolidationAction::ValidateAndCommit
        },
    }
}

/// The step a consolidation run takes after an event.
pub fn consolidation_next_action(event: ConsolidationEvent) -> (r: ConsolidationAction)
    ensures
        r == next_consolidation_action(event),
{
    match event {
        ConsolidationEvent::InputLoaded { stale } => if stale {
            ConsolidationAction::FailStale(WorkOrderCheckpoint::AfterEnqueue)
        } else {
            ConsolidationAction::CheckGate
        },
        ConsolidationEvent::GateDecided { run } => if run {
            ConsolidationAction::LockAndLoadExecutionInput
        } else {
            ConsolidationAction::FinishWithCurrentView
        },
        ConsolidationEvent::ExecutionInputChecked { stale } => if stale {
            ConsolidationAction::FailStale(WorkOrderCheckpoint::BeforeExecution)
        } else {
            ConsolidationAction::CompareFingerprint
        },
        ConsolidationEvent::FingerprintCompared { unchanged } => if unchanged {
            ConsolidationAction::FinishWithCurrentView
        } else {
            ConsolidationAction::ObtainOperations
        },
        ConsolidationEvent::OperationsObtained { failed } => if failed {
            ConsolidationAction::FailOperations
        } else {
            ConsolidationAction::CheckBeforeCommit
        },
        ConsolidationEvent::CommitInputChecked { stale } => if stale {
            ConsolidationAction::FailStale(WorkOrderCheckpoint::BeforeCommit)
        } else {
            ConsolidationAction::ValidateAndCommit
        },
    }
}

/// A run commits only right after its last check found the work order
/// fresh, and a run whose input is unchanged never asks for operations.
pub proof fn law_consolidation_commits_only_fresh_work(event: ConsolidationEvent)
    ensures
        next_consolidation_action(event) == ConsolidationAction::ValidateAndCommit ==> event
            == (ConsolidationEvent::CommitInputChecked { stale: false }),
        next_consolidation_action(event) == ConsolidationAction::ObtainOperations ==> event
            == (ConsolidationEvent::FingerprintCompared { unchanged: false }),
        next_consolidation_action(event) == ConsolidationAction::LockAndLoadExecutionInput ==> event
            == (ConsolidationEvent::GateDecided { run: true }),
{
}

/// A stale work order stops the run at the checkpoint where it was found.
pub proof fn law_stale_work_order_stops_the_run(at: WorkOrderCheckpoint)
    ensures
        next_consolidation_action(
            match at {
                WorkOrderCheckpoint::AfterEnqueue => ConsolidationEvent::InputLoaded { stale: true },
                WorkOrderCheckpoint::BeforeExecution => ConsolidationEvent::ExecutionInputChecked { stale: true },
                WorkOrderCheckpoint::BeforeCommit => ConsolidationEvent::CommitInputChecked { stale: true },
            },
        ) == ConsolidationAction::FailStale(at),
{
}

} // verus!
