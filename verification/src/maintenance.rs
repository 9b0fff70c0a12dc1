//! Conversation data audit and repair: scopes and issue fingerprints.

use vstd::prelude::*;
use crate::error::{AppError, AppResult, message_with};
use crate::script_catalog::str_eq;
use crate::text::{append_chars, chars_of, string_of, trim, trim_str};

verus! {

/// The fingerprint of an audit issue: `record_kind:category`, scoped to a
/// source as `record_kind:category:source:<id>` when there is one.
pub open spec fn audit_fingerprint(record_kind: Seq<char>, category: Seq<char>, source_id: Option<Seq<char>>) -> Seq<char> {
    match source_id {
        None => record_kind + ":"@ + category,
        Some(s) => record_kind + ":"@ + category + ":source:"@ + s,
    }
}

pub fn conversation_audit_fingerprint(record_kind: &str, category: &str, source_id: Option<&str>) -> (r:
    String)
    ensures
        r@ == audit_fingerprint(
            record_kind@,
            category@,
            match source_id {
                Some(s) => Some(s@),
                None => None,
            },
        ),
{
    let mut out = chars_of(record_kind);
    append_chars(&mut out, &chars_of(":"));
    append_chars(&mut out, &chars_of(category));
    if let Some(s) = source_id {
        append_chars(&mut out, &chars_of(":source:"));
        append_chars(&mut out, &chars_of(s));
    }
    string_of(&out)
}

/// The source an audit issue is scoped to: search index mismatches are
/// global, every other category keeps its source.
pub fn audit_issue_source_scope<'a>(category: &str, source_id: Option<&'a str>) -> (r: Option<&'a str>)
    ensures
        r == (if category@ == "search_index_mismatch"@ {
            None
        } else {
            source_id
        }),
{
    if str_eq(category, "search_index_mismatch") {
        None
    } else {
        source_id
    }
}

/// Why a maintenance scope is refused, if it is: a record kind other than
/// `session` or `web`, else a blank source id.
pub open spec fn maintenance_scope_problem(record_kind: Option<Seq<char>>, source_id: Option<Seq<char>>) -> Option<Seq<char>> {
    match record_kind {
        Some(k) if k != "session"@ && k != "web"@ => Some(
            "unsupported conversation record kind: "@ + k,
        ),
        _ => match source_id {
            Some(s) if trim(s).len() == 0 => Some(
                "conversation maintenance source_id must not be empty"@,
            ),
            _ => None,
        },
    }
}

pub fn validate_conversation_maintenance_scope(record_kind: Option<&str>, source_id: Option<&str>) -> (r:
    AppResult<()>)
    ensures
        match maintenance_scope_problem(
            match record_kind {
                Some(k) => Some(k@),
                None => None,
            },
            match source_id {
                Some(s) => Some(s@),
                None => None,
            },
        ) {
            None => r is Ok,
            Some(m) => r matches Err(e) && e is Validation && e->Validation_0@ == m,
        },
{
    if let Some(k) = record_kind {
        if !(str_eq(k, "session") || str_eq(k, "web")) {
            return Err(AppError::Validation(message_with("unsupported conversation record kind: ", k)));
        }
    }
    if let Some(s) = source_id {
        if trim_str(s).unicode_len() == 0 {
            return Err(AppError::Validation(String::from_str(
                "conversation maintenance source_id must not be empty",
            )));
        }
    }
    Ok(())
}

/// Stages of a repair, as its progress counts them.
pub const AUDIT_STAGE_COUNT: usize = 10;

/// The audit inside a repair reports at most its first two stages, out of
/// at least the repair's stage count.
pub fn repair_audit_progress(current: usize, total: usize) -> (r: (usize, usize))
    ensures
        r.0 == if current < 2 { current } else { 2 },
        r.1 == if total > AUDIT_STAGE_COUNT { total } else { AUDIT_STAGE_COUNT },
{
    (if current < 2 { current } else { 2 }, if total > AUDIT_STAGE_COUNT { total } else { AUDIT_STAGE_COUNT })
}

/// The repair stage a resync's progress maps to: stage 4 when there is
/// nothing to sync, else 3 to 5 as the sync goes from start to end.
pub fn repair_resync_stage(completed: usize, total: usize) -> (r: usize)
    ensures
        total == 0 ==> r == 4,
        total > 0 ==> r == 3 + vstd::math::min(
            (if completed * 2 > usize::MAX { usize::MAX as int } else { completed * 2 }) / (total as int),
            2,
        ),
{
    if total == 0 {
        4
    } else {
        let doubled = if completed > usize::MAX / 2 { usize::MAX } else { completed * 2 };
        let share = doubled / total;
        3 + if share < 2 { share } else { 2 }
    }
}

/// A repair that is not a dry run must be confirmed.
pub fn check_repair_confirmed(yes: bool) -> (r: AppResult<()>)
    ensures
        yes ==> r is Ok,
        !yes ==> (r matches Err(e) && e is Validation && e->Validation_0@ == "conversation.data.repair requires yes=true"@),
{
    if !yes {
        return Err(AppError::Validation(String::from_str("conversation.data.repair requires yes=true")));
    }
    Ok(())
}

/// An issue left after a repair, as its fingerprint reads it.
pub struct AuditIssueKey {
    pub category: String,
    /// The record kind the issue names, when it names one.
    pub record_kind: Option<String>,
}

/// The fingerprint of an issue left after a repair scoped to `source_id`:
/// issues that name no record kind count for all kinds.
pub open spec fn issue_fingerprint(issue: AuditIssueKey, source_id: Option<Seq<char>>) -> Seq<char> {
    audit_fingerprint(
        match issue.record_kind {
            Some(k) => k@,
            None => "all"@,
        },
        issue.category@,
        if issue.category@ == "search_index_mismatch"@ {
            None
        } else {
            source_id
        },
    )
}

/// The fingerprints of the issues still open after a repair, each once, in
/// increasing order; the others can be marked resolved.
pub fn active_audit_fingerprints(issues: &Vec<AuditIssueKey>, source_id: Option<&str>) -> (r: Vec<String>)
    ensures
        crate::order::ascending(crate::order::text_views(r@)),
        forall|f: Seq<char>|
            crate::order::text_views(r@).contains(f) <==> exists|i: int|
                0 <= i < issues@.len() && issue_fingerprint(#[trigger] issues@[i], match source_id {
                    Some(s) => Some(s@),
                    None => None,
                }) == f,
{
    let ghost sid = match source_id {
        Some(s) => Some(s@),
        None => None,
    };
    let mut all: Vec<String> = Vec::new();
    let mut i: usize = 0;
    while i < issues.len()
        invariant
            i <= issues@.len(),
            sid == match source_id {
                Some(s) => Some(s@),
                None => None::<Seq<char>>,
            },
            all@.len() == i,
            forall|j: int| 0 <= j < i ==> (#[trigger] all@[j])@ == issue_fingerprint(issues@[j], sid),
        decreases issues.len() - i,
    {
        let issue = &issues[i];
        let kind: &str = match &issue.record_kind {
            Some(k) => k.as_str(),
            None => "all",
        };
        let scope = audit_issue_source_scope(issue.category.as_str(), source_id);
        let f = conversation_audit_fingerprint(kind, issue.category.as_str(), scope);
        all.push(f);
        i = i + 1;
    }
    let r = crate::order::sorted_distinct_texts(&all);
    proof {
        assert forall|f: Seq<char>|
            crate::order::text_views(r@).contains(f) implies exists|i: int|
                0 <= i < issues@.len() && issue_fingerprint(#[trigger] issues@[i], sid) == f by {
            assert(crate::order::text_views(all@).contains(f));
            let k = choose|k: int| 0 <= k < all@.len() && crate::order::text_views(all@)[k] == f;
            assert(all@[k]@ == issue_fingerprint(issues@[k], sid));
        }
        assert forall|f: Seq<char>|
            (exists|i: int| 0 <= i < issues@.len() && issue_fingerprint(#[trigger] issues@[i], sid) == f) implies
            crate::order::text_views(r@).contains(f) by {
            let k = choose|k: int| 0 <= k < issues@.len() && issue_fingerprint(#[trigger] issues@[k], sid) == f;
            assert(crate::order::text_views(all@)[k] == f);
        }
    }
    r
}

} // verus!
