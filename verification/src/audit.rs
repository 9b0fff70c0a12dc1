//! The conversation data audit: which checks run for a request, and which
//! issues their counts become. The caller runs each check's count query and
//! reports progress; the library decides the rest.

use vstd::prelude::*;
use crate::text::opt_view;

verus! {

/// One check of the audit, on one record family.
pub struct AuditCheck {
    /// `session` or `web`.
    pub family_kind: String,
    /// The prefix of the family's tables: `conversation` or `web_record`.
    pub table_prefix: String,
    pub category: String,
    pub severity: String,
    pub auto_repairable: bool,
    pub message: String,
}

/// The checks of an audit and what it counts besides.
pub struct AuditPlan {
    pub checks: Vec<AuditCheck>,
    /// Question snapshot dependencies are counted (only for an audit of all
    /// records of all sources).
    pub count_snapshots: bool,
    /// Snapshot issues already resolved count too.
    pub include_resolved: bool,
}

/// The record families an audit covers, as kind and table prefix.
pub open spec fn audit_families(record_kind: Option<Seq<char>>) -> Seq<(Seq<char>, Seq<char>)> {
    if record_kind == Some("session"@) {
        seq![("session"@, "conversation"@)]
    } else if record_kind == Some("web"@) {
        seq![("web"@, "web_record"@)]
    } else {
        seq![("session"@, "conversation"@), ("web"@, "web_record"@)]
    }
}

/// The seven checks run on every family: category, severity, whether a
/// repair can fix it, and its message.
pub open spec fn check_row(k: int) -> (Seq<char>, Seq<char>, bool, Seq<char>) {
    if k == 0 {
        ("duplicate_memberships"@, "error"@, false, "a Turn is assigned to multiple Questions"@)
    } else if k == 1 {
        ("cross_session_memberships"@, "error"@, false, "Question and Turn belong to different Sessions"@)
    } else if k == 2 {
        ("orphan_memberships"@, "error"@, true, "QuestionTurn references a missing Question or Turn"@)
    } else if k == 3 {
        ("orphan_questions"@, "error"@, true, "Question references a missing Session"@)
    } else if k == 4 {
        ("orphan_turns"@, "error"@, true, "Turn references a missing Session"@)
    } else if k == 5 {
        ("orphan_parts"@, "error"@, true, "Part references a missing Turn"@)
    } else {
        ("legacy_split_shell_parts"@, "warning"@, false, "one historical execution identifier is stored by multiple Parts"@)
    }
}

/// The check is row `k` of the table on this family.
pub open spec fn check_is(c: AuditCheck, family: (Seq<char>, Seq<char>), k: int) -> bool {
    &&& c.family_kind@ == family.0
    &&& c.table_prefix@ == family.1
    &&& c.category@ == check_row(k).0
    &&& c.severity@ == check_row(k).1
    &&& c.auto_repairable == check_row(k).2
    &&& c.message@ == check_row(k).3
}

pub const CHECKS_PER_FAMILY: usize = 7;

fn row_check(kind: &str, prefix: &str, k: usize) -> (r: AuditCheck)
    requires
        k < 7,
    ensures
        check_is(r, (kind@, prefix@), k as int),
{
    let (category, severity, auto_repairable, message) = if k == 0 {
        ("duplicate_memberships", "error", false, "a Turn is assigned to multiple Questions")
    } else if k == 1 {
        ("cross_session_memberships", "error", false, "Question and Turn belong to different Sessions")
    } else if k == 2 {
        ("orphan_memberships", "error", true, "QuestionTurn references a missing Question or Turn")
    } else if k == 3 {
        ("orphan_questions", "error", true, "Question references a missing Session")
    } else if k == 4 {
        ("orphan_turns", "error", true, "Turn references a missing Session")
    } else if k == 5 {
        ("orphan_parts", "error", true, "Part references a missing Turn")
    } else {
        ("legacy_split_shell_parts", "warning", false, "one historical execution identifier is stored by multiple Parts")
    };
    AuditCheck {
        family_kind: String::from_str(kind),
        table_prefix: String::from_str(prefix),
        category: String::from_str(category),
        severity: String::from_str(severity),
        auto_repairable,
        message: String::from_str(message),
    }
}

fn push_family_checks(out: &mut Vec<AuditCheck>, kind: &str, prefix: &str)
    ensures
        final(out)@.len() == old(out)@.len() + 7,
        forall|i: int| 0 <= i < old(out)@.len() ==> final(out)@[i] == old(out)@[i],
        forall|k: int| 0 <= k < 7 ==> check_is(#[trigger] final(out)@[old(out)@.len() + k], (kind@, prefix@), k),
{
    let ghost start = out@.len();
    let mut k: usize = 0;
    while k < CHECKS_PER_FAMILY
        invariant
            k <= 7,
            out@.len() == start + k,
            start == old(out)@.len(),
            forall|i: int| 0 <= i < start ==> out@[i] == old(out)@[i],
            forall|j: int| 0 <= j < k ==> check_is(#[trigger] out@[start + j], (kind@, prefix@), j),
        decreases 7 - k,
    {
        let c = row_check(kind, prefix, k);
        out.push(c);
        k = k + 1;
    }
}

/// The plan of an audit: the seven checks on each family the record kind
/// names (`session`, `web`, or both for any other kind), in that order;
/// snapshot dependencies are counted only when neither a record kind nor a
/// source narrows the audit.
pub fn audit_plan(record_kind: Option<&str>, source_id: Option<&str>, include_resolved: bool) -> (r: AuditPlan)
    ensures
        ({
            let fams = audit_families(opt_text(record_kind));
            &&& r.checks@.len() == fams.len() * 7
            &&& forall|i: int|
                0 <= i < r.checks@.len() ==> check_is(#[trigger] r.checks@[i], fams[i / 7], i % 7)
        }),
        r.count_snapshots == (record_kind is None && source_id is None),
        r.include_resolved == include_resolved,
{
    proof {
        reveal_strlit("session");
        reveal_strlit("web");
        assert("session"@.len() == 7 && "web"@.len() == 3);
    }
    let mut checks: Vec<AuditCheck> = Vec::new();
    let (session, web) = match record_kind {
        Some(k) => {
            let s = crate::script_catalog::str_eq(k, "session");
            let w = crate::script_catalog::str_eq(k, "web");
            (s || !w, w || !s)
        },
        None => (true, true),
    };
    if session {
        push_family_checks(&mut checks, "session", "conversation");
    }
    let ghost mid = checks@;
    if web {
        push_family_checks(&mut checks, "web", "web_record");
    }
    proof {
        let fams = audit_families(opt_text(record_kind));
        assert forall|i: int| 0 <= i < checks@.len() implies check_is(#[trigger] checks@[i], fams[i / 7], i % 7) by {
            if session && web {
                if i < 7 {
                    assert(checks@[i] == mid[i]);
                    assert(mid[0 + i] == mid[i]);
                } else {
                    assert(checks@[7 + (i - 7)] == checks@[i]);
                }
            } else if session {
                assert(mid[0 + i] == mid[i]);
            } else {
                assert(checks@[0 + i] == checks@[i]);
            }
        }
    }
    AuditPlan { checks, count_snapshots: record_kind.is_none() && source_id.is_none(), include_resolved }
}

pub open spec fn opt_text(o: Option<&str>) -> Option<Seq<char>> {
    match o {
        Some(t) => Some(t@),
        None => None,
    }
}

/// An issue the audit found.
pub struct AuditIssue {
    pub category: String,
    pub severity: String,
    pub auto_repairable: bool,
    pub affected_count: i64,
    pub message: String,
    /// The family the issue was found in, when it belongs to one.
    pub record_kind: Option<String>,
    /// The record kind under which the issue is stored; `None` when it is
    /// reported but not stored.
    pub persist_scope: Option<String>,
}

/// An issue as plain values.
pub struct AuditIssueModel {
    pub category: Seq<char>,
    pub severity: Seq<char>,
    pub auto_repairable: bool,
    pub affected_count: i64,
    pub message: Seq<char>,
    pub record_kind: Option<Seq<char>>,
    pub persist_scope: Option<Seq<char>>,
}

impl AuditIssue {
    pub open spec fn model(&self) -> AuditIssueModel {
        AuditIssueModel {
            category: self.category@,
            severity: self.severity@,
            auto_repairable: self.auto_repairable,
            affected_count: self.affected_count,
            message: self.message@,
            record_kind: opt_view(self.record_kind),
            persist_scope: opt_view(self.persist_scope),
        }
    }
}

pub open spec fn issue_models(v: Seq<AuditIssue>) -> Seq<AuditIssueModel> {
    v.map_values(|i: AuditIssue| i.model())
}

/// The issue a check with a non-zero count reports; it is stored under its
/// family.
pub open spec fn check_issue(c: AuditCheck, count: i64) -> AuditIssueModel {
    AuditIssueModel {
        category: c.category@,
        severity: c.severity@,
        auto_repairable: c.auto_repairable,
        affected_count: count,
        message: c.message@,
        record_kind: Some(c.family_kind@),
        persist_scope: Some(c.family_kind@),
    }
}

/// The issues of the first `n` checks: one for each check whose count is
/// not zero, in order.
pub open spec fn check_issues(checks: Seq<AuditCheck>, counts: Seq<i64>, n: int) -> Seq<AuditIssueModel>
    decreases n,
{
    if n <= 0 {
        Seq::empty()
    } else if counts[n - 1] != 0 {
        check_issues(checks, counts, n - 1).push(check_issue(checks[n - 1], counts[n - 1]))
    } else {
        check_issues(checks, counts, n - 1)
    }
}

pub open spec fn snapshot_issue(count: i64) -> AuditIssueModel {
    AuditIssueModel {
        category: "question_snapshot_dependencies"@,
        severity: "warning"@,
        auto_repairable: false,
        affected_count: count,
        message: "Question snapshot history requires review after the contract migration"@,
        record_kind: None,
        persist_scope: None,
    }
}

pub open spec fn search_issue(count: i64) -> AuditIssueModel {
    AuditIssueModel {
        category: "search_index_mismatch"@,
        severity: "warning"@,
        auto_repairable: true,
        affected_count: count,
        message: "search index is missing, stale, or incompatible with source revision"@,
        record_kind: None,
        persist_scope: Some("all"@),
    }
}

/// All issues of an audit: those of the checks, then snapshot dependencies
/// when some were counted, then a search index out of step with the
/// records.
pub open spec fn audit_issue_models(
    checks: Seq<AuditCheck>,
    counts: Seq<i64>,
    snapshot_count: i64,
    search_count: i64,
) -> Seq<AuditIssueModel> {
    check_issues(checks, counts, checks.len() as int) + (if snapshot_count > 0 {
        seq![snapshot_issue(snapshot_count)]
    } else {
        Seq::empty()
    }) + (if search_count > 0 {
        seq![search_issue(search_count)]
    } else {
        Seq::empty()
    })
}

fn copy_opt(o: &Option<String>) -> (r: Option<String>)
    ensures
        opt_view(r) == opt_view(*o),
{
    match o {
        Some(s) => Some(s.clone()),
        None => None,
    }
}

/// The issues the audit reports, from the count of each planned check (in
/// plan order), the snapshot dependencies counted and the search index
/// mismatches found.
pub fn audit_issues(plan: &Vec<AuditCheck>, counts: &Vec<i64>, snapshot_count: i64, search_count: i64) -> (r: Vec<
    AuditIssue,
>)
    requires
        counts@.len() == plan@.len(),
    ensures
        issue_models(r@) == audit_issue_models(plan@, counts@, snapshot_count, search_count),
{
    let mut out: Vec<AuditIssue> = Vec::new();
    let mut i: usize = 0;
    while i < plan.len()
        invariant
            counts@.len() == plan@.len(),
            i <= plan@.len(),
            issue_models(out@) == check_issues(plan@, counts@, i as int),
        decreases plan.len() - i,
    {
        if counts[i] != 0 {
            let c = &plan[i];
            let issue = AuditIssue {
                category: c.category.clone(),
                severity: c.severity.clone(),
                auto_repairable: c.auto_repairable,
                affected_count: counts[i],
                message: c.message.clone(),
                record_kind: Some(c.family_kind.clone()),
                persist_scope: Some(c.family_kind.clone()),
            };
            let ghost before = out@;
            out.push(issue);
            assert(issue_models(out@) =~= issue_models(before).push(issue.model()));
        }
        i = i + 1;
    }
    let ghost base = issue_models(out@);
    if snapshot_count > 0 {
        let issue = AuditIssue {
            category: String::from_str("question_snapshot_dependencies"),
            severity: String::from_str("warning"),
            auto_repairable: false,
            affected_count: snapshot_count,
            message: String::from_str("Question snapshot history requires review after the contract migration"),
            record_kind: None,
            persist_scope: None,
        };
        let ghost before = out@;
        out.push(issue);
        assert(issue_models(out@) =~= issue_models(before).push(issue.model()));
    }
    let ghost mid = issue_models(out@);
    if search_count > 0 {
        let issue = AuditIssue {
            category: String::from_str("search_index_mismatch"),
            severity: String::from_str("warning"),
            auto_repairable: true,
            affected_count: search_count,
            message: String::from_str("search index is missing, stale, or incompatible with source revision"),
            record_kind: None,
            persist_scope: Some(String::from_str("all")),
        };
        let ghost before = out@;
        out.push(issue);
        assert(issue_models(out@) =~= issue_models(before).push(issue.model()));
    }
    proof {
        let t1: Seq<AuditIssueModel> = if snapshot_count > 0 {
            seq![snapshot_issue(snapshot_count)]
        } else {
            Seq::empty()
        };
        let t2: Seq<AuditIssueModel> = if search_count > 0 {
            seq![search_issue(search_count)]
        } else {
            Seq::empty()
        };
        assert(mid =~= base + t1);
        assert(issue_models(out@) =~= base + t1 + t2);
    }
    out
}

/// The label reported while check `index` of the plan runs:
/// `<family>.<category>`.
pub fn audit_step_label(check: &AuditCheck) -> (r: String)
    ensures
        r@ == check.family_kind@ + "."@ + check.category@,
{
    let mut r = check.family_kind.clone();
    r.append(".");
    r.append(check.category.as_str());
    r
}

/// The number of progress steps of an audit: one per check, then snapshot
/// dependencies, then the search index.
pub fn audit_total_steps(plan: &AuditPlan) -> (r: usize)
    requires
        plan.checks@.len() + 2 <= usize::MAX,
    ensures
        r == plan.checks@.len() + 2,
{
    plan.checks.len() + 2
}

} // verus!
