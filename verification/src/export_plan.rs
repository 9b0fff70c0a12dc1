//! Decisions of a conversation export: which exporter renders it, where the
//! file goes, and whether each directory on the way may be used.

use vstd::prelude::*;
use crate::error::{AppError, AppResult, message_with};
use crate::export_markdown::ids_hold;
use crate::models::ConversationAdapter;
use crate::paths::{
    comp_text, components, comps_of, join, join_path, lemma_join_keeps_base, path_components, path_starts_with,
    starts_with_path, PathComp, PathComponent,
};
use crate::records::{
    default_export_path, default_export_relative_path, export_relative_path, first_missing, law_export_path_stays_inside,
    question_ids_of, validate_export_question_ids, validate_export_relative_path, views_of,
    ConversationExportFormat, ConversationSessionDetail,
};
use crate::text::{chars_of, string_of};

verus! {

/// Whether a rendered export goes through the adapter's own Markdown
/// exporter: the adapter declares `export_markdown` and does not speak the
/// first card contract.
pub open spec fn legacy_exporter(
    format: ConversationExportFormat,
    card_contract_version: Option<u32>,
    capabilities: Seq<Seq<char>>,
) -> bool {
    &&& format == ConversationExportFormat::Rendered
    &&& card_contract_version != Some(1u32)
    &&& capabilities.contains("export_markdown"@)
}

pub fn use_legacy_adapter_exporter(format: ConversationExportFormat, adapter: &ConversationAdapter) -> (r: bool)
    ensures
        r == legacy_exporter(format, adapter.card_contract_version, views_of(adapter.capabilities@)),
{
    if format != ConversationExportFormat::Rendered {
        return false;
    }
    match adapter.card_contract_version {
        Some(v) => {
            if v == 1 {
                return false;
            }
        },
        None => {},
    }
    ids_hold(adapter.capabilities.as_slice(), &String::from_str("export_markdown"))
}

/// What an export starts from: the default relative path and the exporter.
pub struct ConversationExportPlan {
    pub relative_path: String,
    pub legacy_adapter_exporter: bool,
}

/// Checks the requested questions, then fixes the default relative path and
/// the exporter of an export.
pub fn plan_conversation_export(
    detail: &ConversationSessionDetail,
    question_ids: &[String],
    format: ConversationExportFormat,
    adapter: &ConversationAdapter,
    fallback_project_segment: &str,
) -> (r: AppResult<ConversationExportPlan>)
    ensures
        match first_missing(views_of(question_ids@), question_ids_of(detail.questions@), 0) {
            None => r matches Ok(p) && p.relative_path@ == default_export_path(
                detail.session,
                question_ids@.len(),
                fallback_project_segment@,
                format,
            ) && p.legacy_adapter_exporter == legacy_exporter(
                format,
                adapter.card_contract_version,
                views_of(adapter.capabilities@),
            ),
            Some(k) => r matches Err(e) && e is NotFound && e->NotFound_0@
                == "conversation question not found in session: "@ + question_ids@[k]@,
        },
{
    validate_export_question_ids(detail, question_ids)?;
    let relative_path = default_export_relative_path(detail, question_ids, fallback_project_segment, format);
    let legacy_adapter_exporter = use_legacy_adapter_exporter(format, adapter);
    Ok(ConversationExportPlan { relative_path, legacy_adapter_exporter })
}

/// Where an export is written: the checked relative path and the target
/// under the output root.
pub struct ConversationExportTarget {
    pub relative_path: String,
    pub target_path: String,
}

/// Checks the relative path an exporter chose and places it under the
/// output root.
pub fn resolve_export_target(output_root: &str, relative_path: &str) -> (r: AppResult<ConversationExportTarget>)
    ensures
        match export_relative_path(relative_path@) {
            Ok(p) => r matches Ok(t) && t.relative_path@ == p && t.target_path@ == join(output_root@, p),
            Err(m) => r matches Err(e) && e is Validation && e->Validation_0@ == m,
        },
{
    let relative = validate_export_relative_path(relative_path)?;
    let target = string_of(&join_path(&chars_of(output_root), &chars_of(relative.as_str())));
    Ok(ConversationExportTarget { relative_path: relative, target_path: target })
}

/// The components of the parent of a path (all but the last).
pub open spec fn parent_comps(rel: Seq<char>) -> Seq<PathComp> {
    let c = components(rel);
    if c.len() == 0 {
        c
    } else {
        c.drop_last()
    }
}

/// The directory reached from `root` through the first `n` components.
pub open spec fn dir_chain(root: Seq<char>, c: Seq<PathComp>, n: int) -> Seq<char>
    decreases n,
{
    if n <= 0 {
        root
    } else {
        join(dir_chain(root, c, n - 1), comp_text(c[n - 1]))
    }
}

/// Every component is a plain name.
pub open spec fn plain_comps(c: Seq<PathComp>) -> bool {
    forall|i: int| 0 <= i < c.len() ==> (#[trigger] c[i]) is Normal
}

/// The directories an export walks through below the output root, one per
/// component of the relative path's parent, in order. A parent that holds
/// anything but plain names is refused.
pub fn export_parent_dirs(output_root: &str, relative_path: &str) -> (r: AppResult<Vec<String>>)
    ensures
        plain_comps(parent_comps(relative_path@)) ==> (r matches Ok(v) && v@.len() == parent_comps(
            relative_path@,
        ).len() && forall|i: int|
            0 <= i < v@.len() ==> (#[trigger] v@[i])@ == dir_chain(
                output_root@,
                parent_comps(relative_path@),
                i + 1,
            )),
        !plain_comps(parent_comps(relative_path@)) ==> (r matches Err(e) && e is Validation
            && e->Validation_0@ == "markdown_export relative_path cannot contain root, prefix, '.', or '..'"@),
{
    let c = path_components(&chars_of(relative_path));
    let n: usize = if c.len() == 0 { 0 } else { c.len() - 1 };
    let ghost pc = parent_comps(relative_path@);
    assert(pc =~= comps_of(c@).take(n as int));
    let mut out: Vec<String> = Vec::new();
    let mut current = chars_of(output_root);
    let mut i: usize = 0;
    while i < n
        invariant
            i <= n <= c@.len(),
            pc == comps_of(c@).take(n as int),
            pc == parent_comps(relative_path@),
            out@.len() == i,
            current@ == dir_chain(output_root@, pc, i as int),
            forall|j: int| 0 <= j < i ==> (#[trigger] pc[j]) is Normal,
            forall|j: int| 0 <= j < i ==> (#[trigger] out@[j])@ == dir_chain(output_root@, pc, j + 1),
        decreases n - i,
    {
        assert(pc[i as int] == c@[i as int].comp());
        match &c[i] {
            PathComponent::Normal(seg) => {
                current = join_path(&current, seg);
                out.push(string_of(&current));
            },
            _ => {
                assert(!(pc[i as int] is Normal));
                assert(!plain_comps(pc));
                return Err(AppError::Validation(String::from_str(
                    "markdown_export relative_path cannot contain root, prefix, '.', or '..'",
                )));
            },
        }
        i = i + 1;
    }
    Ok(out)
}

/// What the file system holds at a path, as an export step sees it.
#[derive(Debug, Clone, Copy, PartialEq, Eq, Structural)]
pub enum ExportEntryKind {
    Missing,
    Directory,
    Symlink,
    File,
}

/// A directory on the way to the export: an existing directory is entered,
/// a missing one is to be created (`Ok(true)`), a symlink or a file stops
/// the export.
pub fn export_parent_step(current: &str, entry: ExportEntryKind) -> (r: AppResult<bool>)
    ensures
        entry == ExportEntryKind::Missing ==> r == Ok::<bool, AppError>(true),
        entry == ExportEntryKind::Directory ==> r == Ok::<bool, AppError>(false),
        entry == ExportEntryKind::Symlink ==> (r matches Err(e) && e is Conflict && e->Conflict_0@
            == "markdown_export relative_path cannot traverse symlink: "@ + current@),
        entry == ExportEntryKind::File ==> (r matches Err(e) && e is Conflict && e->Conflict_0@
            == "markdown_export relative_path parent is not a directory: "@ + current@),
{
    match entry {
        ExportEntryKind::Missing => Ok(true),
        ExportEntryKind::Directory => Ok(false),
        ExportEntryKind::Symlink => Err(AppError::Conflict(message_with(
            "markdown_export relative_path cannot traverse symlink: ",
            current,
        ))),
        ExportEntryKind::File => Err(AppError::Conflict(message_with(
            "markdown_export relative_path parent is not a directory: ",
            current,
        ))),
    }
}

/// The export file itself may be missing or a plain file, never a symlink
/// or a directory.
pub fn check_export_target_entry(relative_path: &str, entry: ExportEntryKind) -> (r: AppResult<()>)
    ensures
        (entry == ExportEntryKind::Missing || entry == ExportEntryKind::File) ==> r is Ok,
        entry == ExportEntryKind::Symlink ==> (r matches Err(e) && e is Conflict && e->Conflict_0@
            == "markdown_export relative_path points to a symlink: "@ + relative_path@),
        entry == ExportEntryKind::Directory ==> (r matches Err(e) && e is Conflict && e->Conflict_0@
            == "markdown_export relative_path points to a directory: "@ + relative_path@),
{
    match entry {
        ExportEntryKind::Symlink => Err(AppError::Conflict(message_with(
            "markdown_export relative_path points to a symlink: ",
            relative_path,
        ))),
        ExportEntryKind::Directory => Err(AppError::Conflict(message_with(
            "markdown_export relative_path points to a directory: ",
            relative_path,
        ))),
        _ => Ok(()),
    }
}

/// The resolved parent directory of the export must lie inside the resolved
/// output root.
pub fn ensure_export_parent_stays_in_root(canonical_root: &str, canonical_parent: &str) -> (r: AppResult<()>)
    ensures
        path_starts_with(canonical_parent@, canonical_root@) ==> r is Ok,
        !path_starts_with(canonical_parent@, canonical_root@) ==> (r matches Err(e) && e is Conflict
            && e->Conflict_0@ == "markdown_export relative_path resolves outside output_root"@),
{
    if starts_with_path(canonical_parent, canonical_root) {
        Ok(())
    } else {
        Err(AppError::Conflict(String::from_str(
            "markdown_export relative_path resolves outside output_root",
        )))
    }
}

/// Whatever the output root, the target an accepted export path resolves to
/// lies inside it: the root's components begin the target's.
pub proof fn law_export_target_inside_root(output_root: Seq<char>, relative_path: Seq<char>)
    ensures
        export_relative_path(relative_path) matches Ok(p) ==> path_starts_with(join(output_root, p), output_root),
{
    law_export_path_stays_inside(relative_path);
    if let Ok(p) = export_relative_path(relative_path) {
        lemma_join_keeps_base(output_root, p);
    }
}

} // verus!
