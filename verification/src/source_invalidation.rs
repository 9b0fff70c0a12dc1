//! What becomes of long-term memory when the conversations it was drawn from
//! go away. A reference to a disabled source, a missing session, a deleted
//! source or session, or an excluded source or session becomes unavailable,
//! with the first of these reasons that applies; promoted (L2 and L3) items
//! stay as they are, and a current L1 item that is left without any
//! available reference is retired.

use vstd::prelude::*;
use crate::script_catalog::{list_contains, lists, str_eq};
use crate::text::opt_view;

verus! {

/// A reference from a revision of a memory item to the conversation it was
/// drawn from.
pub struct SourceReferenceRow {
    /// The item whose revision holds the reference.
    pub item_id: String,
    pub source_id: String,
    pub session_id: String,
    pub available: bool,
    pub unavailable_reason: Option<String>,
    pub unavailable_at: Option<String>,
}

/// A conversation source and whether it is enabled.
pub struct SourceState {
    pub id: String,
    pub enabled: bool,
}

/// A conversation session and whether it went missing.
pub struct SessionState {
    pub id: String,
    pub missing: bool,
}

/// A memory item: its layer (`l1`, `l2`, `l3`) and lifecycle.
pub struct MemoryItemState {
    pub id: String,
    pub layer: String,
    pub lifecycle: String,
    pub updated_at: String,
}

/// A reference as plain values.
pub struct ReferenceModel {
    pub item_id: Seq<char>,
    pub source_id: Seq<char>,
    pub session_id: Seq<char>,
    pub available: bool,
    pub unavailable_reason: Option<Seq<char>>,
    pub unavailable_at: Option<Seq<char>>,
}

/// An item as plain values.
pub struct ItemModel {
    pub id: Seq<char>,
    pub layer: Seq<char>,
    pub lifecycle: Seq<char>,
    pub updated_at: Seq<char>,
}

impl SourceReferenceRow {
    pub open spec fn model(&self) -> ReferenceModel {
        ReferenceModel {
            item_id: self.item_id@,
            source_id: self.source_id@,
            session_id: self.session_id@,
            available: self.available,
            unavailable_reason: opt_view(self.unavailable_reason),
            unavailable_at: opt_view(self.unavailable_at),
        }
    }
}

impl MemoryItemState {
    pub open spec fn model(&self) -> ItemModel {
        ItemModel { id: self.id@, layer: self.layer@, lifecycle: self.lifecycle@, updated_at: self.updated_at@ }
    }
}

pub open spec fn reference_models(v: Seq<SourceReferenceRow>) -> Seq<ReferenceModel> {
    v.map_values(|r: SourceReferenceRow| r.model())
}

pub open spec fn item_models(v: Seq<MemoryItemState>) -> Seq<ItemModel> {
    v.map_values(|r: MemoryItemState| r.model())
}

/// Some source with this id is disabled.
pub open spec fn source_disabled(sources: Seq<SourceState>, id: Seq<char>) -> bool {
    exists|k: int| 0 <= k < sources.len() && sources[k].id@ == id && !sources[k].enabled
}

/// Some source has this id.
pub open spec fn source_known(sources: Seq<SourceState>, id: Seq<char>) -> bool {
    exists|k: int| 0 <= k < sources.len() && sources[k].id@ == id
}

/// Some session with this id went missing.
pub open spec fn session_missing(sessions: Seq<SessionState>, id: Seq<char>) -> bool {
    exists|k: int| 0 <= k < sessions.len() && sessions[k].id@ == id && sessions[k].missing
}

/// Some session has this id.
pub open spec fn session_known(sessions: Seq<SessionState>, id: Seq<char>) -> bool {
    exists|k: int| 0 <= k < sessions.len() && sessions[k].id@ == id
}

/// Why a reference is no longer available, if it is not: the first reason
/// that applies, in the order disabled source, missing session, deleted
/// source or session, excluded source, excluded session.
pub open spec fn invalidation_reason(
    r: ReferenceModel,
    sources: Seq<SourceState>,
    sessions: Seq<SessionState>,
    excluded_sources: Seq<String>,
    excluded_sessions: Seq<String>,
) -> Option<Seq<char>> {
    if source_disabled(sources, r.source_id) {
        Some("source_disabled"@)
    } else if session_missing(sessions, r.session_id) {
        Some("missing"@)
    } else if !source_known(sources, r.source_id) || !session_known(sessions, r.session_id) {
        Some("deleted"@)
    } else if lists(excluded_sources, r.source_id) || lists(excluded_sessions, r.session_id) {
        Some("excluded"@)
    } else {
        None
    }
}

/// A reference is invalidated when it is still available and a reason
/// applies to it.
pub open spec fn invalidates(
    r: ReferenceModel,
    sources: Seq<SourceState>,
    sessions: Seq<SessionState>,
    excluded_sources: Seq<String>,
    excluded_sessions: Seq<String>,
) -> bool {
    r.available && invalidation_reason(r, sources, sessions, excluded_sources, excluded_sessions) is Some
}

/// A reference after reconciliation: an invalidated one becomes unavailable
/// with its reason, keeping the time it first became unavailable if it has
/// one; any other stays as it is.
pub open spec fn reference_after(
    r: ReferenceModel,
    sources: Seq<SourceState>,
    sessions: Seq<SessionState>,
    excluded_sources: Seq<String>,
    excluded_sessions: Seq<String>,
    now: Seq<char>,
) -> ReferenceModel {
    if invalidates(r, sources, sessions, excluded_sources, excluded_sessions) {
        ReferenceModel {
            available: false,
            unavailable_reason: invalidation_reason(r, sources, sessions, excluded_sources, excluded_sessions),
            unavailable_at: match r.unavailable_at {
                Some(t) => Some(t),
                None => Some(now),
            },
            ..r
        }
    } else {
        r
    }
}

/// How many of the first `n` references are invalidated.
pub open spec fn invalidated_count(
    refs: Seq<ReferenceModel>,
    sources: Seq<SourceState>,
    sessions: Seq<SessionState>,
    excluded_sources: Seq<String>,
    excluded_sessions: Seq<String>,
    n: int,
) -> nat
    decreases n,
{
    if n <= 0 {
        0
    } else {
        invalidated_count(refs, sources, sessions, excluded_sources, excluded_sessions, n - 1) + if invalidates(
            refs[n - 1],
            sources,
            sessions,
            excluded_sources,
            excluded_sessions,
        ) {
            1nat
        } else {
            0nat
        }
    }
}

/// Some reference of the item is available.
pub open spec fn has_available_reference(refs: Seq<ReferenceModel>, item_id: Seq<char>) -> bool {
    exists|k: int| 0 <= k < refs.len() && refs[k].item_id == item_id && refs[k].available
}

/// An item after reconciliation, given the references after it: a current L1
/// item without any available reference is retired now; any other item stays
/// as it is.
pub open spec fn item_after(item: ItemModel, refs: Seq<ReferenceModel>, now: Seq<char>) -> ItemModel {
    if item.layer == "l1"@ && item.lifecycle == "current"@ && !has_available_reference(refs, item.id) {
        ItemModel { lifecycle: "retired"@, updated_at: now, ..item }
    } else {
        item
    }
}

fn source_disabled_exec(sources: &Vec<SourceState>, id: &str) -> (r: bool)
    ensures
        r == source_disabled(sources@, id@),
{
    let mut k: usize = 0;
    while k < sources.len()
        invariant
            k <= sources@.len(),
            forall|j: int| 0 <= j < k ==> !(sources@[j].id@ == id@ && !sources@[j].enabled),
        decreases sources.len() - k,
    {
        if !sources[k].enabled && str_eq(sources[k].id.as_str(), id) {
            return true;
        }
        k = k + 1;
    }
    false
}

fn source_known_exec(sources: &Vec<SourceState>, id: &str) -> (r: bool)
    ensures
        r == source_known(sources@, id@),
{
    let mut k: usize = 0;
    while k < sources.len()
        invariant
            k <= sources@.len(),
            forall|j: int| 0 <= j < k ==> sources@[j].id@ != id@,
        decreases sources.len() - k,
    {
        if str_eq(sources[k].id.as_str(), id) {
            return true;
        }
        k = k + 1;
    }
    false
}

fn session_missing_exec(sessions: &Vec<SessionState>, id: &str) -> (r: bool)
    ensures
        r == session_missing(sessions@, id@),
{
    let mut k: usize = 0;
    while k < sessions.len()
        invariant
            k <= sessions@.len(),
            forall|j: int| 0 <= j < k ==> !(sessions@[j].id@ == id@ && sessions@[j].missing),
        decreases sessions.len() - k,
    {
        if sessions[k].missing && str_eq(sessions[k].id.as_str(), id) {
            return true;
        }
        k = k + 1;
    }
    false
}

fn session_known_exec(sessions: &Vec<SessionState>, id: &str) -> (r: bool)
    ensures
        r == session_known(sessions@, id@),
{
    let mut k: usize = 0;
    while k < sessions.len()
        invariant
            k <= sessions@.len(),
            forall|j: int| 0 <= j < k ==> sessions@[j].id@ != id@,
        decreases sessions.len() - k,
    {
        if str_eq(sessions[k].id.as_str(), id) {
            return true;
        }
        k = k + 1;
    }
    false
}

/// The reason that makes a reference unavailable, if any applies.
pub fn reference_invalidation_reason(
    reference: &SourceReferenceRow,
    sources: &Vec<SourceState>,
    sessions: &Vec<SessionState>,
    excluded_source_ids: &Vec<String>,
    excluded_session_ids: &Vec<String>,
) -> (r: Option<String>)
    ensures
        opt_view(r) == invalidation_reason(
            reference.model(),
            sources@,
            sessions@,
            excluded_source_ids@,
            excluded_session_ids@,
        ),
{
    let source_id = reference.source_id.as_str();
    let session_id = reference.session_id.as_str();
    if source_disabled_exec(sources, source_id) {
        Some(String::from_str("source_disabled"))
    } else if session_missing_exec(sessions, session_id) {
        Some(String::from_str("missing"))
    } else if !source_known_exec(sources, source_id) || !session_known_exec(sessions, session_id) {
        Some(String::from_str("deleted"))
    } else if list_contains(excluded_source_ids, source_id) || list_contains(excluded_session_ids, session_id) {
        Some(String::from_str("excluded"))
    } else {
        None
    }
}

fn copy_text(o: &Option<String>) -> (r: Option<String>)
    ensures
        opt_view(r) == opt_view(*o),
{
    match o {
        Some(s) => Some(s.clone()),
        None => None,
    }
}

fn has_available_reference_exec(refs: &Vec<SourceReferenceRow>, item_id: &str) -> (r: bool)
    ensures
        r == has_available_reference(reference_models(refs@), item_id@),
{
    let ghost m = reference_models(refs@);
    let mut k: usize = 0;
    while k < refs.len()
        invariant
            k <= refs@.len(),
            m == reference_models(refs@),
            forall|j: int| 0 <= j < k ==> !(m[j].item_id == item_id@ && m[j].available),
        decreases refs.len() - k,
    {
        if refs[k].available && str_eq(refs[k].item_id.as_str(), item_id) {
            assert(m[k as int] == refs@[k as int].model());
            return true;
        }
        assert(m[k as int] == refs@[k as int].model());
        k = k + 1;
    }
    false
}

/// Marks unavailable the references whose conversations are gone, disabled
/// or excluded, then retires the current L1 items left without any
/// available reference. Returns how many references became unavailable.
pub fn reconcile_source_invalidation_rows(
    refs: &mut Vec<SourceReferenceRow>,
    items: &mut Vec<MemoryItemState>,
    sources: &Vec<SourceState>,
    sessions: &Vec<SessionState>,
    excluded_source_ids: &Vec<String>,
    excluded_session_ids: &Vec<String>,
    now: &str,
) -> (affected: usize)
    ensures
        reference_models(final(refs)@).len() == old(refs)@.len(),
        forall|i: int|
            0 <= i < old(refs)@.len() ==> reference_models(final(refs)@)[i] == reference_after(
                #[trigger] reference_models(old(refs)@)[i],
                sources@,
                sessions@,
                excluded_source_ids@,
                excluded_session_ids@,
                now@,
            ),
        affected == invalidated_count(
            reference_models(old(refs)@),
            sources@,
            sessions@,
            excluded_source_ids@,
            excluded_session_ids@,
            old(refs)@.len() as int,
        ),
        item_models(final(items)@).len() == old(items)@.len(),
        forall|i: int|
            0 <= i < old(items)@.len() ==> item_models(final(items)@)[i] == item_after(
                #[trigger] item_models(old(items)@)[i],
                reference_models(final(refs)@),
                now@,
            ),
{
    let ghost old_models = reference_models(refs@);
    let mut out: Vec<SourceReferenceRow> = Vec::new();
    let mut affected: usize = 0;
    let mut i: usize = 0;
    while i < refs.len()
        invariant
            i <= refs@.len(),
            old_models == reference_models(refs@),
            reference_models(out@).len() == i,
            forall|j: int|
                0 <= j < i ==> reference_models(out@)[j] == reference_after(
                    #[trigger] old_models[j],
                    sources@,
                    sessions@,
                    excluded_source_ids@,
                    excluded_session_ids@,
                    now@,
                ),
            affected == invalidated_count(
                old_models,
                sources@,
                sessions@,
                excluded_source_ids@,
                excluded_session_ids@,
                i as int,
            ),
            affected <= i,
        decreases refs.len() - i,
    {
        let r = &refs[i];
        assert(old_models[i as int] == r.model());
        let reason = if r.available {
            reference_invalidation_reason(r, sources, sessions, excluded_source_ids, excluded_session_ids)
        } else {
            None
        };
        let row = match reason {
            Some(why) => {
                affected = affected + 1;
                let at = match &r.unavailable_at {
                    Some(t) => t.clone(),
                    None => String::from_str(now),
                };
                SourceReferenceRow {
                    item_id: r.item_id.clone(),
                    source_id: r.source_id.clone(),
                    session_id: r.session_id.clone(),
                    available: false,
                    unavailable_reason: Some(why),
                    unavailable_at: Some(at),
                }
            },
            None => SourceReferenceRow {
                item_id: r.item_id.clone(),
                source_id: r.source_id.clone(),
                session_id: r.session_id.clone(),
                available: r.available,
                unavailable_reason: copy_text(&r.unavailable_reason),
                unavailable_at: copy_text(&r.unavailable_at),
            },
        };
        let ghost before = out@;
        out.push(row);
        proof {
            assert(reference_models(out@) =~= reference_models(before).push(row.model()));
        }
        i = i + 1;
    }
    *refs = out;

    let ghost old_items = item_models(items@);
    let ghost new_models = reference_models(refs@);
    let mut next_items: Vec<MemoryItemState> = Vec::new();
    let mut k: usize = 0;
    while k < items.len()
        invariant
            k <= items@.len(),
            old_items == item_models(items@),
            new_models == reference_models(refs@),
            item_models(next_items@).len() == k,
            forall|j: int|
                0 <= j < k ==> item_models(next_items@)[j] == item_after(#[trigger] old_items[j], new_models, now@),
        decreases items.len() - k,
    {
        let it = &items[k];
        assert(old_items[k as int] == it.model());
        let retire = str_eq(it.layer.as_str(), "l1") && str_eq(it.lifecycle.as_str(), "current")
            && !has_available_reference_exec(refs, it.id.as_str());
        let row = if retire {
            MemoryItemState {
                id: it.id.clone(),
                layer: it.layer.clone(),
                lifecycle: String::from_str("retired"),
                updated_at: String::from_str(now),
            }
        } else {
            MemoryItemState {
                id: it.id.clone(),
                layer: it.layer.clone(),
                lifecycle: it.lifecycle.clone(),
                updated_at: it.updated_at.clone(),
            }
        };
        let ghost before = next_items@;
        next_items.push(row);
        proof {
            assert(item_models(next_items@) =~= item_models(before).push(row.model()));
        }
        k = k + 1;
    }
    *items = next_items;
    affected
}

/// Promoted knowledge outlives its sources: reconciliation never changes an
/// item that is not in layer L1, nor one that is not current, whatever
/// became of the references.
pub proof fn law_invalidation_keeps_promoted_items(item: ItemModel, refs: Seq<ReferenceModel>, now: Seq<char>)
    requires
        item.layer != "l1"@ || item.lifecycle != "current"@,
    ensures
        item_after(item, refs, now) == item,
{
}

/// A reference that is unavailable is never made available again, and keeps
/// its reason and time.
pub proof fn law_unavailable_reference_stays(
    r: ReferenceModel,
    sources: Seq<SourceState>,
    sessions: Seq<SessionState>,
    excluded_sources: Seq<String>,
    excluded_sessions: Seq<String>,
    now: Seq<char>,
)
    requires
        !r.available,
    ensures
        reference_after(r, sources, sessions, excluded_sources, excluded_sessions, now) == r,
{
}

/// Reconciling twice with the same sources, sessions and exclusions changes
/// nothing the second time: no reference is invalidated again, and every
/// reference and item stays as the first pass left it.
pub proof fn law_source_invalidation_is_idempotent(
    refs: Seq<ReferenceModel>,
    items: Seq<ItemModel>,
    sources: Seq<SourceState>,
    sessions: Seq<SessionState>,
    excluded_sources: Seq<String>,
    excluded_sessions: Seq<String>,
    now: Seq<char>,
)
    ensures
        ({
            let once = refs.map_values(
                |r: ReferenceModel| reference_after(r, sources, sessions, excluded_sources, excluded_sessions, now),
            );
            &&& invalidated_count(once, sources, sessions, excluded_sources, excluded_sessions, once.len() as int) == 0
            &&& forall|i: int|
                0 <= i < once.len() ==> reference_after(
                    #[trigger] once[i],
                    sources,
                    sessions,
                    excluded_sources,
                    excluded_sessions,
                    now,
                ) == once[i]
            &&& forall|i: int|
                0 <= i < items.len() ==> item_after(item_after(#[trigger] items[i], once, now), once, now)
                    == item_after(items[i], once, now)
        }),
{
    let once = refs.map_values(
        |r: ReferenceModel| reference_after(r, sources, sessions, excluded_sources, excluded_sessions, now),
    );
    assert forall|i: int| 0 <= i < once.len() implies !invalidates(
        #[trigger] once[i],
        sources,
        sessions,
        excluded_sources,
        excluded_sessions,
    ) by {
        let r = refs[i];
        if invalidates(r, sources, sessions, excluded_sources, excluded_sessions) {
            assert(!once[i].available);
        } else {
            assert(once[i] == r);
        }
    }
    lemma_no_invalidated(once, sources, sessions, excluded_sources, excluded_sessions, once.len() as int);
}

proof fn lemma_no_invalidated(
    refs: Seq<ReferenceModel>,
    sources: Seq<SourceState>,
    sessions: Seq<SessionState>,
    excluded_sources: Seq<String>,
    excluded_sessions: Seq<String>,
    n: int,
)
    requires
        n <= refs.len(),
        forall|i: int|
            0 <= i < refs.len() ==> !invalidates(
                #[trigger] refs[i],
                sources,
                sessions,
                excluded_sources,
                excluded_sessions,
            ),
    ensures
        invalidated_count(refs, sources, sessions, excluded_sources, excluded_sessions, n) == 0,
    decreases n,
{
    if n > 0 {
        lemma_no_invalidated(refs, sources, sessions, excluded_sources, excluded_sessions, n - 1);
    }
}

} // verus!
