//! The global (L3) memory as shown to users: the current items with their
//! source references, and whether the sources behind each item are still
//! available.

use vstd::prelude::*;
use crate::consolidation::{MemoryItemCategory, MemoryItemStatus};
use crate::l3_candidates::{category_named, parse_category, parse_status, status_named};
use crate::script_catalog::str_eq;

verus! {

/// Whether the sources behind an item can still be read.
#[derive(Debug, Clone, Copy, PartialEq, Eq, Structural)]
pub enum SourceAvailability {
    Available,
    PartiallyUnavailable,
    Unavailable,
}

/// A current L3 item with its current revision, as stored.
pub struct L3ItemRow {
    pub item_id: String,
    pub updated_at: String,
    pub revision_id: String,
    pub revision_number: i64,
    pub category: String,
    pub status: String,
    pub title: String,
    pub summary: String,
    pub rationale: String,
}

/// A source reference of an L3 revision, as stored.
pub struct L3ReferenceRow {
    pub source_id: String,
    pub session_id: String,
    pub reference_key: String,
    pub question_id: Option<String>,
    pub turn_id: Option<String>,
    pub part_id: Option<String>,
    pub node_id: Option<String>,
    pub availability: String,
    pub unavailable_reason: Option<String>,
}

/// The stored consolidation state of a tenant.
pub struct L3StateRow {
    pub last_successful_consolidation_at: Option<String>,
    pub revision_hash: Option<String>,
}

/// A source reference as shown.
pub struct L3SourceReferenceView {
    pub source_id: String,
    pub session_id: String,
    pub reference_key: String,
    pub project_key: Option<String>,
    pub question_id: Option<String>,
    pub turn_id: Option<String>,
    pub part_id: Option<String>,
    pub node_id: Option<String>,
    pub available: bool,
    pub unavailable_reason: Option<String>,
}

/// An L3 item as shown.
pub struct L3MemoryItemView {
    pub item_id: String,
    pub revision_id: String,
    pub revision_number: i64,
    pub category: MemoryItemCategory,
    pub status: MemoryItemStatus,
    pub title: String,
    pub summary: String,
    pub rationale: String,
    pub lifecycle: String,
    pub source_availability: SourceAvailability,
    pub source_references: Vec<L3SourceReferenceView>,
    pub updated_at: String,
}

/// The global memory of a tenant as shown.
pub struct L3GlobalMemoryView {
    pub tenant_id: String,
    pub items: Vec<L3MemoryItemView>,
    pub last_successful_consolidation_at: Option<String>,
    pub revision_hash: String,
}

/// A stored reference counts as available only when marked `available`.
pub open spec fn reference_available(r: L3ReferenceRow) -> bool {
    r.availability@ == "available"@
}

/// Unavailable when there are references and none is available; partly
/// unavailable when some are and some are not; else available.
pub open spec fn availability_of(refs: Seq<L3ReferenceRow>) -> SourceAvailability {
    let some_available = exists|i: int| 0 <= i < refs.len() && reference_available(#[trigger] refs[i]);
    let some_unavailable = exists|i: int| 0 <= i < refs.len() && !reference_available(#[trigger] refs[i]);
    if refs.len() > 0 && !some_available {
        SourceAvailability::Unavailable
    } else if some_available && some_unavailable {
        SourceAvailability::PartiallyUnavailable
    } else {
        SourceAvailability::Available
    }
}

/// A stored reference as shown: no project, available as marked.
pub open spec fn reference_view(r: L3ReferenceRow) -> L3SourceReferenceView {
    L3SourceReferenceView {
        source_id: r.source_id,
        session_id: r.session_id,
        reference_key: r.reference_key,
        project_key: None,
        question_id: r.question_id,
        turn_id: r.turn_id,
        part_id: r.part_id,
        node_id: r.node_id,
        available: reference_available(r),
        unavailable_reason: r.unavailable_reason,
    }
}

/// `v` shows the stored item `row` with its references `refs`.
pub open spec fn is_item_view(v: L3MemoryItemView, row: L3ItemRow, refs: Seq<L3ReferenceRow>) -> bool {
    &&& v.item_id == row.item_id
    &&& v.revision_id == row.revision_id
    &&& v.revision_number == row.revision_number
    &&& v.category == category_named(row.category@)
    &&& v.status == status_named(row.status@)
    &&& v.title == row.title
    &&& v.summary == row.summary
    &&& v.rationale == row.rationale
    &&& v.lifecycle@ == "current"@
    &&& v.source_availability == availability_of(refs)
    &&& v.source_references@ == refs.map_values(|r: L3ReferenceRow| reference_view(r))
    &&& v.updated_at == row.updated_at
}

/// Shows a stored item with its references.
pub fn l3_item_view(row: L3ItemRow, refs: Vec<L3ReferenceRow>) -> (v: L3MemoryItemView)
    ensures
        is_item_view(v, row, refs@),
{
    let ghost rs = refs@;
    let mut source_references: Vec<L3SourceReferenceView> = Vec::new();
    let mut has_available = false;
    let mut has_unavailable = false;
    let mut rest = refs;
    let ghost n = rs.len();
    while rest.len() > 0
        invariant
            n == rs.len(),
            rest@.len() + source_references@.len() == n,
            rest@ == rs.skip(source_references@.len() as int),
            source_references@ == rs.take(source_references@.len() as int).map_values(
                |r: L3ReferenceRow| reference_view(r),
            ),
            has_available == exists|i: int|
                0 <= i < source_references@.len() && reference_available(#[trigger] rs[i]),
            has_unavailable == exists|i: int|
                0 <= i < source_references@.len() && !reference_available(#[trigger] rs[i]),
        decreases rest.len(),
    {
        let ghost k = source_references@.len() as int;
        let r = rest.remove(0);
        assert(r == rs[k]);
        assert(rest@ =~= rs.skip(k + 1));
        let available = str_eq(r.availability.as_str(), "available");
        if available {
            has_available = true;
        } else {
            has_unavailable = true;
        }
        let view = L3SourceReferenceView {
            source_id: r.source_id,
            session_id: r.session_id,
            reference_key: r.reference_key,
            project_key: None,
            question_id: r.question_id,
            turn_id: r.turn_id,
            part_id: r.part_id,
            node_id: r.node_id,
            available,
            unavailable_reason: r.unavailable_reason,
        };
        assert(view == reference_view(rs[k]));
        source_references.push(view);
        assert(rs.take(k + 1).map_values(|r: L3ReferenceRow| reference_view(r)) =~= rs.take(k).map_values(
            |r: L3ReferenceRow| reference_view(r),
        ).push(reference_view(rs[k])));
    }
    assert(rs.take(n as int) =~= rs);
    let source_availability = if source_references.len() > 0 && !has_available {
        SourceAvailability::Unavailable
    } else if has_available && has_unavailable {
        SourceAvailability::PartiallyUnavailable
    } else {
        SourceAvailability::Available
    };
    let category = parse_category(row.category.as_str());
    let status = parse_status(row.status.as_str());
    L3MemoryItemView {
        item_id: row.item_id,
        revision_id: row.revision_id,
        revision_number: row.revision_number,
        category,
        status,
        title: row.title,
        summary: row.summary,
        rationale: row.rationale,
        lifecycle: String::from_str("current"),
        source_availability,
        source_references,
        updated_at: row.updated_at,
    }
}

/// The global memory of a tenant: nothing when it holds no item and was
/// never consolidated; else its items in the stored order, with the state's
/// last consolidation time and revision hash (empty when unknown).
pub fn l3_global_view(
    tenant_id: &str,
    items: Vec<(L3ItemRow, Vec<L3ReferenceRow>)>,
    state: Option<L3StateRow>,
) -> (r: Option<L3GlobalMemoryView>)
    ensures
        (items@.len() == 0 && state is None) <==> r is None,
        r matches Some(v) ==> {
            &&& v.tenant_id@ == tenant_id@
            &&& v.items@.len() == items@.len()
            &&& forall|i: int|
                0 <= i < items@.len() ==> is_item_view(#[trigger] v.items@[i], items@[i].0, items@[i].1@)
            &&& v.last_successful_consolidation_at == match state {
                Some(s) => s.last_successful_consolidation_at,
                None => None,
            }
            &&& v.revision_hash@ == match state {
                Some(s) => match s.revision_hash {
                    Some(h) => h@,
                    None => Seq::empty(),
                },
                None => Seq::empty(),
            }
        },
{
    if items.len() == 0 && state.is_none() {
        return None;
    }
    let ghost all = items@;
    let n = items.len();
    let mut rest = items;
    let mut views: Vec<L3MemoryItemView> = Vec::new();
    while rest.len() > 0
        invariant
            n == all.len(),
            rest@.len() + views@.len() == n,
            rest@ == all.skip(views@.len() as int),
            forall|i: int| 0 <= i < views@.len() ==> is_item_view(#[trigger] views@[i], all[i].0, all[i].1@),
        decreases rest.len(),
    {
        let ghost k = views@.len() as int;
        let (row, refs) = rest.remove(0);
        assert(all[k] == (row, refs));
        assert(rest@ =~= all.skip(k + 1));
        views.push(l3_item_view(row, refs));
    }
    let (last, hash) = match state {
        Some(s) => (
            s.last_successful_consolidation_at,
            match s.revision_hash {
                Some(h) => h,
                None => String::new(),
            },
        ),
        None => (None, String::new()),
    };
    Some(L3GlobalMemoryView {
        tenant_id: String::from_str(tenant_id),
        items: views,
        last_successful_consolidation_at: last,
        revision_hash: hash,
    })
}

} // verus!
