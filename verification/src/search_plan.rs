//! Planning a conversation search: validating the query, choosing what is
//! searched and how, and summarizing recent sync changes for incremental
//! searches.

use vstd::prelude::*;
use crate::error::{AppError, AppResult};
use crate::models::ConversationRecordKind;
use crate::records::{normalize_conversation_record_kind, record_kind_named, requested_record_kind};
use crate::script_catalog::str_eq;
use crate::text::{chars_of, string_of, trim, trim_str, trim_vec};

verus! {

/// How search results are retrieved.
#[derive(Debug, Clone, Copy, PartialEq, Eq, Structural)]
pub enum SearchRetrievalMode {
    Lexical,
    Semantic,
    Hybrid,
}

/// A search request.
pub struct ConversationSearchParams {
    pub query: String,
    pub record_kind: Option<String>,
    pub adapter_id: Option<String>,
    pub source_id: Option<String>,
    pub project_path: Option<String>,
    pub content_types: Vec<String>,
    pub card_kinds: Vec<String>,
    pub semantic_roles: Vec<String>,
    pub include_questions: Option<bool>,
    pub include_cards: Option<bool>,
    pub since: Option<String>,
    pub until: Option<String>,
    pub timeline: bool,
    pub limit: Option<usize>,
    pub offset: Option<usize>,
    pub retrieval_mode: Option<SearchRetrievalMode>,
}

/// What a search runs with.
pub struct ConversationSearchPlan {
    pub query: String,
    pub record_kind_label: String,
    pub record_kind: ConversationRecordKind,
    pub limit: usize,
    pub offset: usize,
    pub project_path: Option<String>,
    pub card_kinds: Vec<String>,
    pub semantic_roles: Vec<String>,
    pub scan_content_types: Vec<String>,
    pub include_questions: bool,
    pub include_cards: bool,
    pub use_index: bool,
    pub fallback_backend: String,
}

pub open spec fn string_texts(v: Seq<String>) -> Seq<Seq<char>> {
    v.map_values(|x: String| x@)
}

/// Content types that name a semantic role rather than a card kind.
pub open spec fn legacy_semantic_role(t: Seq<char>) -> bool {
    t == "answer"@ || t == "tool"@ || t == "command"@ || t == "code"@ || t == "result"@
}

/// `base` with the items of `extra` that satisfy `take` appended once each,
/// in order, scanning the first `n`.
pub open spec fn extend_from(base: Seq<Seq<char>>, extra: Seq<Seq<char>>, take: spec_fn(Seq<char>) -> bool, n: int) -> Seq<Seq<char>>
    decreases n,
{
    if n <= 0 {
        base
    } else {
        let prev = extend_from(base, extra, take, n - 1);
        let x = extra[n - 1];
        if take(x) && !prev.contains(x) {
            prev.push(x)
        } else {
            prev
        }
    }
}

/// Semantic roles searched: the requested ones, then the legacy role
/// content types not already listed.
pub open spec fn planned_roles(p: ConversationSearchParams) -> Seq<Seq<char>> {
    extend_from(
        string_texts(p.semantic_roles@),
        string_texts(p.content_types@),
        |t: Seq<char>| legacy_semantic_role(t),
        p.content_types@.len() as int,
    )
}

/// Card kinds searched: the requested ones, then the other content types
/// (but `question`) not already listed.
pub open spec fn planned_card_kinds(p: ConversationSearchParams) -> Seq<Seq<char>> {
    extend_from(
        string_texts(p.card_kinds@),
        string_texts(p.content_types@),
        |t: Seq<char>| !legacy_semantic_role(t) && t != "question"@,
        p.content_types@.len() as int,
    )
}

/// Content types scanned without the index: the requested ones, then the
/// card kinds not already listed.
pub open spec fn planned_scan_types(p: ConversationSearchParams) -> Seq<Seq<char>> {
    let kinds = planned_card_kinds(p);
    extend_from(string_texts(p.content_types@), kinds, |t: Seq<char>| true, kinds.len() as int)
}

/// `n` clamped to `lo..=hi`.
pub open spec fn clamped(n: int, lo: int, hi: int) -> int {
    if n < lo {
        lo
    } else if n > hi {
        hi
    } else {
        n
    }
}

/// Why a search request is refused, if it is.
pub open spec fn search_error(p: ConversationSearchParams) -> Option<Seq<char>> {
    let q = trim(p.query@);
    if q.len() == 0 {
        Some("conversation search query is required"@)
    } else if q.len() > 512 {
        Some("conversation search query must not exceed 512 characters"@)
    } else if p.retrieval_mode == Some(SearchRetrievalMode::Semantic) {
        Some("conversation search retrieval mode semantic is not supported; supported modes: lexical"@)
    } else if p.retrieval_mode == Some(SearchRetrievalMode::Hybrid) {
        Some("conversation search retrieval mode hybrid is not supported; supported modes: lexical"@)
    } else {
        let name = requested_record_kind(
            match p.record_kind {
                Some(k) => Some(k@),
                None => None,
            },
        );
        if record_kind_named(name) is None {
            Some("unsupported conversation record kind: "@ + name)
        } else {
            None
        }
    }
}

/// `plan` is what an accepted request searches with.
pub open spec fn is_search_plan(plan: ConversationSearchPlan, p: ConversationSearchParams, incremental: bool) -> bool {
    let name = requested_record_kind(
        match p.record_kind {
            Some(k) => Some(k@),
            None => None,
        },
    );
    let (label, kind) = record_kind_named(name)->0;
    let kinds = planned_card_kinds(p);
    let roles = planned_roles(p);
    let types = string_texts(p.content_types@);
    &&& plan.query@ == trim(p.query@)
    &&& plan.record_kind_label@ == label
    &&& plan.record_kind == kind
    &&& plan.limit == clamped(
        match p.limit {
            Some(l) => l as int,
            None => 50,
        },
        1,
        500,
    )
    &&& plan.offset == match p.offset {
        Some(o) => o,
        None => 0,
    }
    &&& plan.project_path == if kind == ConversationRecordKind::Web {
        None
    } else {
        p.project_path
    }
    &&& string_texts(plan.card_kinds@) == kinds
    &&& string_texts(plan.semantic_roles@) == roles
    &&& string_texts(plan.scan_content_types@) == planned_scan_types(p)
    &&& plan.include_questions == match p.include_questions {
        Some(b) => b,
        None => (types.len() == 0 && kinds.len() == 0 && roles.len() == 0) || types.contains(
            "question"@,
        ),
    }
    &&& plan.include_cards == match p.include_cards {
        Some(b) => b,
        None => types.len() == 0 || kinds.len() > 0 || roles.len() > 0,
    }
    &&& plan.use_index == (!incremental && p.since is None && p.until is None && !p.timeline)
    &&& plan.fallback_backend@ == if incremental {
        "incremental_delta_scan"@
    } else {
        "legacy_scan"@
    }
}

fn copy_texts(v: &Vec<String>) -> (r: Vec<String>)
    ensures
        string_texts(r@) == string_texts(v@),
{
    let mut out: Vec<String> = Vec::new();
    let mut i: usize = 0;
    while i < v.len()
        invariant
            i <= v@.len(),
            string_texts(out@) == string_texts(v@).take(i as int),
        decreases v.len() - i,
    {
        let t = v[i].clone();
        assert(string_texts(out@.push(t)) =~= string_texts(out@).push(t@));
        assert(string_texts(v@).take(i + 1) =~= string_texts(v@).take(i as int).push(v@[i as int]@));
        out.push(t);
        i = i + 1;
    }
    assert(string_texts(v@).take(v@.len() as int) =~= string_texts(v@));
    out
}

fn lists_text(v: &Vec<String>, x: &str) -> (r: bool)
    ensures
        r == string_texts(v@).contains(x@),
{
    let ghost vv = string_texts(v@);
    let mut i: usize = 0;
    while i < v.len()
        invariant
            i <= v@.len(),
            vv == string_texts(v@),
            forall|j: int| 0 <= j < i ==> vv[j] != x@,
        decreases v.len() - i,
    {
        if str_eq(v[i].as_str(), x) {
            assert(vv[i as int] == x@);
            return true;
        }
        i = i + 1;
    }
    proof {
        if vv.contains(x@) {
            let k = choose|k: int| 0 <= k < vv.len() && vv[k] == x@;
            assert(vv[k] != x@);
        }
    }
    false
}

fn is_legacy_role(t: &str) -> (r: bool)
    ensures
        r == legacy_semantic_role(t@),
{
    str_eq(t, "answer") || str_eq(t, "tool") || str_eq(t, "command") || str_eq(t, "code") || str_eq(
        t,
        "result",
    )
}

/// Validates a search request and works out what it searches and how.
pub fn plan_conversation_search(params: &ConversationSearchParams, incremental: bool) -> (r: AppResult<ConversationSearchPlan>)
    ensures
        match search_error(*params) {
            Some(m) => r matches Err(e) && e is Validation && e->Validation_0@ == m,
            None => r matches Ok(plan) && is_search_plan(plan, *params, incremental),
        },
{
    let query = trim_str(params.query.as_str());
    if query.unicode_len() == 0 {
        return Err(AppError::Validation(String::from_str("conversation search query is required")));
    }
    if query.unicode_len() > 512 {
        return Err(AppError::Validation(String::from_str(
            "conversation search query must not exceed 512 characters",
        )));
    }
    match params.retrieval_mode {
        Some(SearchRetrievalMode::Semantic) => {
            return Err(AppError::Validation(String::from_str(
                "conversation search retrieval mode semantic is not supported; supported modes: lexical",
            )));
        },
        Some(SearchRetrievalMode::Hybrid) => {
            return Err(AppError::Validation(String::from_str(
                "conversation search retrieval mode hybrid is not supported; supported modes: lexical",
            )));
        },
        _ => {},
    }
    let kind_arg: Option<&str> = match &params.record_kind {
        Some(k) => Some(k.as_str()),
        None => None,
    };
    let (label, kind) = match normalize_conversation_record_kind(kind_arg) {
        Ok(pair) => pair,
        Err(e) => {
            return Err(e);
        },
    };
    let limit: usize = match params.limit {
        Some(l) => if l < 1 {
            1
        } else if l > 500 {
            500
        } else {
            l
        },
        None => 50,
    };
    let offset: usize = match params.offset {
        Some(o) => o,
        None => 0,
    };
    let project_path = if kind == ConversationRecordKind::Web {
        None
    } else {
        crate::models::clone_opt(&params.project_path)
    };
    let ghost types = string_texts(params.content_types@);
    let mut card_kinds = copy_texts(&params.card_kinds);
    let mut roles = copy_texts(&params.semantic_roles);
    let mut i: usize = 0;
    while i < params.content_types.len()
        invariant
            i <= params.content_types@.len(),
            types == string_texts(params.content_types@),
            string_texts(card_kinds@) == extend_from(
                string_texts(params.card_kinds@),
                types,
                |t: Seq<char>| !legacy_semantic_role(t) && t != "question"@,
                i as int,
            ),
            string_texts(roles@) == extend_from(
                string_texts(params.semantic_roles@),
                types,
                |t: Seq<char>| legacy_semantic_role(t),
                i as int,
            ),
        decreases params.content_types.len() - i,
    {
        let value = params.content_types[i].as_str();
        assert(types[i as int] == value@);
        if is_legacy_role(value) {
            if !lists_text(&roles, value) {
                let t = String::from_str(value);
                assert(string_texts(roles@.push(t)) =~= string_texts(roles@).push(t@));
                roles.push(t);
            }
        } else if !str_eq(value, "question") && !lists_text(&card_kinds, value) {
            let t = String::from_str(value);
            assert(string_texts(card_kinds@.push(t)) =~= string_texts(card_kinds@).push(t@));
            card_kinds.push(t);
        }
        i = i + 1;
    }
    let ghost kinds_v = string_texts(card_kinds@);
    let mut scan = copy_texts(&params.content_types);
    let mut j: usize = 0;
    while j < card_kinds.len()
        invariant
            j <= card_kinds@.len(),
            kinds_v == string_texts(card_kinds@),
            string_texts(scan@) == extend_from(types, kinds_v, |t: Seq<char>| true, j as int),
            types == string_texts(params.content_types@),
        decreases card_kinds.len() - j,
    {
        let kind_text = card_kinds[j].as_str();
        assert(kinds_v[j as int] == kind_text@);
        if !lists_text(&scan, kind_text) {
            let t = String::from_str(kind_text);
            assert(string_texts(scan@.push(t)) =~= string_texts(scan@).push(t@));
            scan.push(t);
        }
        j = j + 1;
    }
    let include_questions = match params.include_questions {
        Some(b) => b,
        None => (params.content_types.len() == 0 && card_kinds.len() == 0 && roles.len() == 0)
            || lists_text(&params.content_types, "question"),
    };
    let include_cards = match params.include_cards {
        Some(b) => b,
        None => params.content_types.len() == 0 || card_kinds.len() > 0 || roles.len() > 0,
    };
    let use_index = !incremental && params.since.is_none() && params.until.is_none() && !params.timeline;
    let fallback_backend = if incremental {
        String::from_str("incremental_delta_scan")
    } else {
        String::from_str("legacy_scan")
    };
    Ok(ConversationSearchPlan {
        query,
        record_kind_label: label,
        record_kind: kind,
        limit,
        offset,
        project_path,
        card_kinds,
        semantic_roles: roles,
        scan_content_types: scan,
        include_questions,
        include_cards,
        use_index,
        fallback_backend,
    })
}

/// How many recent sync runs an incremental search covers: three unless
/// asked, between one and twenty.
pub fn recent_run_limit(recent_runs: Option<usize>) -> (r: usize)
    ensures
        r == clamped(
            match recent_runs {
                Some(n) => n as int,
                None => 3,
            },
            1,
            20,
        ),
{
    match recent_runs {
        Some(n) => if n < 1 {
            1
        } else if n > 20 {
            20
        } else {
            n
        },
        None => 3,
    }
}


/// A change a recent sync run made to a session.
pub struct ConversationSyncDelta {
    pub sync_run_id: String,
    pub session_id: String,
    pub change_kind: String,
    pub observed_at: String,
}

/// What an incremental search covered.
pub struct ConversationSearchIncrementalScope {
    pub recent_runs: usize,
    pub included_run_count: usize,
    pub changed_session_count: usize,
}

/// The change that put a session in an incremental search.
pub struct ConversationSearchIncrementalMatch {
    pub sync_run_id: String,
    pub change_kind: String,
    pub observed_at: String,
}

pub open spec fn delta_runs(d: Seq<ConversationSyncDelta>) -> Seq<Seq<char>> {
    d.map_values(|x: ConversationSyncDelta| x.sync_run_id@)
}

pub open spec fn delta_sessions(d: Seq<ConversationSyncDelta>) -> Seq<Seq<char>> {
    d.map_values(|x: ConversationSyncDelta| x.session_id@)
}

fn distinct_count(texts: &Vec<String>) -> (r: usize)
    ensures
        r == string_texts(texts@).to_set().len(),
{
    let ghost v = string_texts(texts@);
    let mut seen: Vec<String> = Vec::new();
    let mut i: usize = 0;
    while i < texts.len()
        invariant
            i <= texts@.len(),
            v == string_texts(texts@),
            string_texts(seen@).no_duplicates(),
            forall|y: Seq<char>| string_texts(seen@).contains(y) <==> v.take(i as int).contains(y),
        decreases texts.len() - i,
    {
        let x = texts[i].as_str();
        let ghost sv = string_texts(seen@);
        let ghost t0 = v.take(i as int);
        let ghost t1 = v.take(i + 1);
        assert(t1 =~= t0.push(x@));
        assert forall|y: Seq<char>| t1.contains(y) <==> (t0.contains(y) || y == x@) by {
            if t1.contains(y) {
                let m = choose|m: int| 0 <= m < t1.len() && t1[m] == y;
                if m < t0.len() {
                    assert(t0[m] == y);
                }
            }
            if t0.contains(y) {
                let m = choose|m: int| 0 <= m < t0.len() && t0[m] == y;
                assert(t1[m] == y);
            }
            if y == x@ {
                assert(t1[t0.len() as int] == y);
            }
        }
        if !lists_text(&seen, x) {
            let t = String::from_str(x);
            seen.push(t);
            proof {
                let nv = string_texts(seen@);
                assert(nv =~= sv.push(x@));
                assert forall|y: Seq<char>| nv.contains(y) <==> (sv.contains(y) || y == x@) by {
                    if nv.contains(y) {
                        let k = choose|k: int| 0 <= k < nv.len() && nv[k] == y;
                        if k < sv.len() {
                            assert(sv[k] == y);
                        }
                    }
                    if sv.contains(y) {
                        let k = choose|k: int| 0 <= k < sv.len() && sv[k] == y;
                        assert(nv[k] == y);
                    }
                    if y == x@ {
                        assert(nv[sv.len() as int] == y);
                    }
                }
            }
        }
        i = i + 1;
    }
    assert(v.take(texts@.len() as int) =~= v);
    proof {
        let sv = string_texts(seen@);
        assert(sv.to_set() =~= v.to_set());
        sv.unique_seq_to_set();
    }
    seen.len()
}

/// The scope of an incremental search: the runs asked for, and how many
/// distinct runs and sessions the recent changes involve.
pub fn incremental_scope(recent_runs: usize, deltas: &Vec<ConversationSyncDelta>) -> (r: ConversationSearchIncrementalScope)
    ensures
        r.recent_runs == recent_runs,
        r.included_run_count == delta_runs(deltas@).to_set().len(),
        r.changed_session_count == delta_sessions(deltas@).to_set().len(),
{
    let mut runs: Vec<String> = Vec::new();
    let mut sessions: Vec<String> = Vec::new();
    let mut i: usize = 0;
    while i < deltas.len()
        invariant
            i <= deltas@.len(),
            string_texts(runs@) == delta_runs(deltas@).take(i as int),
            string_texts(sessions@) == delta_sessions(deltas@).take(i as int),
        decreases deltas.len() - i,
    {
        let r = deltas[i].sync_run_id.clone();
        let s = deltas[i].session_id.clone();
        assert(string_texts(runs@.push(r)) =~= string_texts(runs@).push(r@));
        assert(string_texts(sessions@.push(s)) =~= string_texts(sessions@).push(s@));
        assert(delta_runs(deltas@).take(i + 1) =~= delta_runs(deltas@).take(i as int).push(r@));
        assert(delta_sessions(deltas@).take(i + 1) =~= delta_sessions(deltas@).take(i as int).push(s@));
        runs.push(r);
        sessions.push(s);
        i = i + 1;
    }
    assert(delta_runs(deltas@).take(deltas@.len() as int) =~= delta_runs(deltas@));
    assert(delta_sessions(deltas@).take(deltas@.len() as int) =~= delta_sessions(deltas@));
    let included = distinct_count(&runs);
    let changed = distinct_count(&sessions);
    ConversationSearchIncrementalScope {
        recent_runs,
        included_run_count: included,
        changed_session_count: changed,
    }
}

/// The first recent change of a session, which marks it in the results.
pub fn incremental_match_for(deltas: &Vec<ConversationSyncDelta>, session_id: &str) -> (r: Option<ConversationSearchIncrementalMatch>)
    ensures
        match r {
            None => forall|i: int| 0 <= i < deltas@.len() ==> (#[trigger] deltas@[i]).session_id@ != session_id@,
            Some(m) => exists|i: int|
                0 <= i < deltas@.len() && (#[trigger] deltas@[i]).session_id@ == session_id@ && (forall|j: int|
                    0 <= j < i ==> deltas@[j].session_id@ != session_id@) && m.sync_run_id == deltas@[i].sync_run_id
                    && m.change_kind == deltas@[i].change_kind && m.observed_at == deltas@[i].observed_at,
        },
{
    let mut i: usize = 0;
    while i < deltas.len()
        invariant
            i <= deltas@.len(),
            forall|j: int| 0 <= j < i ==> (#[trigger] deltas@[j]).session_id@ != session_id@,
        decreases deltas.len() - i,
    {
        let d = &deltas[i];
        if str_eq(d.session_id.as_str(), session_id) {
            return Some(ConversationSearchIncrementalMatch {
                sync_run_id: d.sync_run_id.clone(),
                change_kind: d.change_kind.clone(),
                observed_at: d.observed_at.clone(),
            });
        }
        i = i + 1;
    }
    None
}

/// The parts of a search index status that the stored state does not give
/// directly.
pub struct SearchIndexHealthView {
    pub health: String,
    pub last_error: Option<String>,
    pub is_rebuilding: bool,
}

/// How a search index's state is shown: an index whose schema or tokenizer
/// no longer fits shows as `failed`, with an explaining error when it has
/// none of its own; it is rebuilding while some owner holds its lease.
pub fn search_index_health(health: &str, compatible: bool, last_error: Option<String>, lease_held: bool) -> (r:
    SearchIndexHealthView)
    ensures
        r.health@ == if compatible { health@ } else { "failed"@ },
        crate::text::opt_view(r.last_error) == match last_error {
            Some(e) => Some(e@),
            None => if compatible {
                None
            } else {
                Some("conversation search index schema or tokenizer version is incompatible"@)
            },
        },
        r.is_rebuilding == lease_held,
{
    let shown = if compatible {
        String::from_str(health)
    } else {
        String::from_str("failed")
    };
    let error = match last_error {
        Some(e) => Some(e),
        None => if compatible {
            None
        } else {
            Some(String::from_str("conversation search index schema or tokenizer version is incompatible"))
        },
    };
    SearchIndexHealthView { health: shown, last_error: error, is_rebuilding: lease_held }
}

/// The stored state of a tenant's search index as the status reads it:
/// its health, whether its schema and tokenizer fit this build, its last
/// error, its rebuild lease, the retrieval modes it supports, and the
/// revisions, counters and times that the status shows as they are (`C`).
pub struct SearchIndexState<C> {
    pub health: String,
    pub compatible: bool,
    pub last_error: Option<String>,
    pub lease_owner: Option<String>,
    pub lease_expires_at: Option<String>,
    pub supported_modes: Vec<String>,
    pub copied: C,
}

/// The status of a search index.
pub struct SearchIndexStatus<C> {
    pub health: String,
    pub last_error: Option<String>,
    pub lease_owner: Option<String>,
    pub lease_expires_at: Option<String>,
    pub is_rebuilding: bool,
    pub supported_modes: Vec<String>,
    pub copied: C,
}

/// The status shown for a stored index state: health, last error and
/// rebuilding as `search_index_health` decides them; the lease, the
/// supported modes and the revisions and counters as they are.
pub fn status_from_state<C>(state: SearchIndexState<C>) -> (r: SearchIndexStatus<C>)
    ensures
        r.health@ == if state.compatible { state.health@ } else { "failed"@ },
        crate::text::opt_view(r.last_error) == match state.last_error {
            Some(e) => Some(e@),
            None => if state.compatible {
                None
            } else {
                Some("conversation search index schema or tokenizer version is incompatible"@)
            },
        },
        r.is_rebuilding == (state.lease_owner is Some),
        r.lease_owner == state.lease_owner,
        r.lease_expires_at == state.lease_expires_at,
        r.supported_modes@ == state.supported_modes@,
        r.copied == state.copied,
{
    let view = search_index_health(state.health.as_str(), state.compatible, state.last_error, state.lease_owner.is_some());
    SearchIndexStatus {
        health: view.health,
        last_error: view.last_error,
        lease_owner: state.lease_owner,
        lease_expires_at: state.lease_expires_at,
        is_rebuilding: view.is_rebuilding,
        supported_modes: state.supported_modes,
        copied: state.copied,
    }
}

} // verus!
