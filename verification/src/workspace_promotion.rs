//! Promoting a developer's adapter workspace to an immutable runtime copy:
//! the identity checks, the revision name, where the copy goes, and the
//! package record that points at it.

use vstd::prelude::*;
use crate::adapter_installer::ConversationAdapterPackageValidationResult;
use crate::clock::now_rfc3339;
use crate::error::{AppError, AppResult, message_with};
use crate::models::{
    ConversationAdapterPackage, ConversationAdapterPackageOrigin, ConversationAdapterRuntimeGateStatus,
    ConversationPackageUpdatePolicy,
};
use crate::paths::{join, join_str};
use crate::script_catalog::{str_eq, validated_package_version};
use crate::text::{trim, trim_str};
use crate::versions::{semver_greater, semver_newer, semver_parse_error, semver_valid};

verus! {

/// Why a workspace cannot be promoted as it is, if it cannot: its folder
/// must be named after its adapter, and its package and adapter manifests
/// must give the same version.
pub open spec fn workspace_identity_problem(
    directory_name: Seq<char>,
    adapter_id: Seq<char>,
    package_version: Seq<char>,
    adapter_version: Seq<char>,
) -> Option<Seq<char>> {
    if directory_name != adapter_id {
        Some(
            "conversation adapter workspace directory must match adapter id: expected "@ + adapter_id + ", found "@
                + directory_name,
        )
    } else if package_version != adapter_version {
        Some("conversation adapter package and adapter versions must match: "@ + package_version + " != "@ + adapter_version)
    } else if !semver_valid(trim(package_version)) {
        Some("conversation adapter package version must be SemVer: "@ + semver_parse_error(trim(package_version))->0)
    } else {
        None
    }
}

/// Checks a workspace's identity; on success, its version.
pub fn check_workspace_identity(
    directory_name: &str,
    adapter_id: &str,
    package_version: &str,
    adapter_version: &str,
) -> (r: AppResult<String>)
    ensures
        match workspace_identity_problem(directory_name@, adapter_id@, package_version@, adapter_version@) {
            None => r matches Ok(v) && v@ == trim(package_version@),
            Some(m) => r matches Err(e) && e is Validation && e->Validation_0@ == m,
        },
{
    if !str_eq(directory_name, adapter_id) {
        let mut m = message_with("conversation adapter workspace directory must match adapter id: expected ", adapter_id);
        m.append(", found ");
        m.append(directory_name);
        return Err(AppError::Validation(m));
    }
    if !str_eq(package_version, adapter_version) {
        let mut m = message_with("conversation adapter package and adapter versions must match: ", package_version);
        m.append(" != ");
        m.append(adapter_version);
        return Err(AppError::Validation(m));
    }
    validated_package_version(package_version)
}

/// The active package is newer than the workspace when its trimmed version
/// parses and is greater.
pub open spec fn active_version_newer(active_version: Seq<char>, version: Seq<char>) -> bool {
    semver_valid(trim(active_version)) && semver_valid(version) && semver_greater(trim(active_version), version)
}

/// Whether promoting `version` would replace a newer active package; such
/// a promotion is skipped.
pub fn workspace_active_version_newer(active_version: &str, version: &str) -> (r: bool)
    ensures
        r == active_version_newer(active_version@, version@),
{
    let active = trim_str(active_version);
    match semver_newer(active.as_str(), version) {
        Some(g) => g,
        None => false,
    }
}

/// Bytes of a character in UTF-8.
pub open spec fn utf8_width(c: char) -> nat {
    if (c as u32) < 0x80 {
        1
    } else if (c as u32) < 0x800 {
        2
    } else if (c as u32) < 0x10000 {
        3
    } else {
        4
    }
}

/// Bytes of a text in UTF-8.
pub open spec fn utf8_len(s: Seq<char>) -> nat
    decreases s.len(),
{
    if s.len() == 0 {
        0
    } else {
        utf8_len(s.drop_last()) + utf8_width(s.last())
    }
}

/// The longest prefix of `s`, from `i` chars on, whose UTF-8 form holds at
/// most `n` bytes.
pub open spec fn prefix_count(s: Seq<char>, i: int, n: nat) -> int
    decreases s.len() - i,
{
    if i < 0 || i >= s.len() || utf8_len(s.take(i + 1)) > n {
        i
    } else {
        prefix_count(s, i + 1, n)
    }
}

/// `&s[..12.min(s.len())]` for a text whose twelfth byte ends a character.
pub open spec fn hash_prefix(s: Seq<char>) -> Seq<char> {
    s.take(prefix_count(s, 0, 12))
}

/// The first twelve bytes of the text end a character (or it is shorter).
pub open spec fn cut_at_char(s: Seq<char>) -> bool {
    utf8_len(hash_prefix(s)) == if utf8_len(s) < 12 {
        utf8_len(s)
    } else {
        12
    }
}

proof fn lemma_utf8_len_take(s: Seq<char>, i: int)
    requires
        0 <= i < s.len(),
    ensures
        utf8_len(s.take(i + 1)) == utf8_len(s.take(i)) + utf8_width(s[i]),
{
    assert(s.take(i + 1).drop_last() =~= s.take(i));
}

fn char_width(c: char) -> (r: usize)
    ensures
        r == utf8_width(c),
{
    let v = c as u32;
    if v < 0x80 {
        1
    } else if v < 0x800 {
        2
    } else if v < 0x10000 {
        3
    } else {
        4
    }
}

/// The name of a runtime revision: the version, a dash and the first twelve
/// bytes of the content hash.
pub fn workspace_revision(version: &str, content_hash: &str) -> (r: String)
    requires
        cut_at_char(content_hash@),
    ensures
        r@ == version@ + "-"@ + hash_prefix(content_hash@),
{
    let h = crate::text::chars_of(content_hash);
    let ghost s = h@;
    let mut i: usize = 0;
    let mut bytes: usize = 0;
    let mut stop = false;
    assert(s.take(0) =~= Seq::<char>::empty());
    while i < h.len() && !stop
        invariant
            i <= s.len(),
            s == h@,
            bytes == utf8_len(s.take(i as int)),
            bytes <= 12,
            prefix_count(s, 0, 12) == prefix_count(s, i as int, 12),
            stop ==> i < s.len() && utf8_len(s.take(i + 1)) > 12,
        decreases h.len() - i + if stop { 0int } else { 1int },
    {
        proof {
            lemma_utf8_len_take(s, i as int);
        }
        let w = char_width(h[i]);
        if bytes + w > 12 {
            stop = true;
        } else {
            bytes = bytes + w;
            i = i + 1;
        }
    }
    assert(prefix_count(s, i as int, 12) == i);
    let prefix = crate::text::slice_chars(&h, 0, i);
    assert(prefix@ =~= hash_prefix(content_hash@));
    let mut r = String::from_str(version);
    r.append("-");
    r.append(crate::text::string_of(&prefix).as_str());
    r
}

/// Where a promoted revision lives:
/// `<managed root>/packages/<package id>/versions/<revision>`.
pub open spec fn workspace_version_dir_of(managed_root: Seq<char>, package_id: Seq<char>, revision: Seq<char>) -> Seq<char> {
    join(join(join(join(managed_root, "packages"@), package_id), "versions"@), revision)
}

pub fn workspace_version_dir(managed_root: &str, package_id: &str, revision: &str) -> (r: String)
    ensures
        r@ == workspace_version_dir_of(managed_root@, package_id@, revision@),
{
    let packages = join_str(managed_root, "packages");
    let root = join_str(packages.as_str(), package_id);
    let versions = join_str(root.as_str(), "versions");
    join_str(versions.as_str(), revision)
}

/// The package record of a promoted workspace: ready at its runtime copy,
/// from a local directory, pinned to its exact revision, trusted with the
/// copy's content hash. A re-promotion keeps the first creation time.
pub fn workspace_package_record(
    validation: &ConversationAdapterPackageValidationResult,
    adapter_id: &str,
    version_dir: &str,
    source_dir: &str,
    previous_created_at: Option<&str>,
) -> (p: ConversationAdapterPackage)
    ensures
        p.package_id == validation.manifest.package_id,
        p.adapter_id@ == adapter_id@,
        p.name == validation.manifest.name,
        p.version == validation.manifest.version,
        p.record_kind == validation.manifest.record_kind,
        p.install_dir@ == version_dir@,
        p.manifest_path == validation.manifest_path,
        p.adapter_manifest_path == validation.adapter_manifest_path,
        p.runtime_protocol == validation.manifest.runtime_protocol,
        p.runtime_ready,
        p.origin == ConversationAdapterPackageOrigin::LocalDirectory,
        p.source_url matches Some(u) && u@ == source_dir@,
        p.git_ref is None,
        p.git_commit is None,
        p.catalog_url is None,
        p.update_policy == ConversationPackageUpdatePolicy::PinExact,
        p.latest_version == Some(validation.manifest.version),
        p.last_checked_at == Some(p.updated_at),
        p.runtime_gate_status == ConversationAdapterRuntimeGateStatus::Ready,
        p.runtime_validated_at == Some(p.updated_at),
        p.installed_content_hash == Some(validation.content_hash),
        p.trusted_package_hash == Some(validation.content_hash),
        p.error_message is None,
        p.created_at@ == match previous_created_at {
            Some(c) => c@,
            None => p.updated_at@,
        },
{
    let now = now_rfc3339();
    let created_at = match previous_created_at {
        Some(c) => String::from_str(c),
        None => now.clone(),
    };
    ConversationAdapterPackage {
        package_id: validation.manifest.package_id.clone(),
        adapter_id: String::from_str(adapter_id),
        name: validation.manifest.name.clone(),
        version: validation.manifest.version.clone(),
        record_kind: validation.manifest.record_kind,
        install_dir: String::from_str(version_dir),
        manifest_path: validation.manifest_path.clone(),
        adapter_manifest_path: validation.adapter_manifest_path.clone(),
        runtime_protocol: validation.manifest.runtime_protocol.clone(),
        runtime_ready: true,
        origin: ConversationAdapterPackageOrigin::LocalDirectory,
        source_url: Some(String::from_str(source_dir)),
        git_ref: None,
        git_commit: None,
        catalog_url: None,
        update_policy: ConversationPackageUpdatePolicy::PinExact,
        latest_version: Some(validation.manifest.version.clone()),
        last_checked_at: Some(now.clone()),
        runtime_gate_status: ConversationAdapterRuntimeGateStatus::Ready,
        runtime_validated_at: Some(now.clone()),
        installed_content_hash: Some(validation.content_hash.clone()),
        trusted_package_hash: Some(validation.content_hash.clone()),
        error_message: None,
        created_at,
        updated_at: now,
    }
}

/// An entry of the adapter workspace directory.
pub struct WorkspaceEntry {
    pub name: String,
    pub is_dir: bool,
    /// The entry holds a `conversation-adapter-package.json` file.
    pub has_package_manifest: bool,
}

/// A workspace entry is a package directory: a directory holding a package
/// manifest, other than the `packages` and `staging` directories.
pub open spec fn workspace_package_entry(e: WorkspaceEntry) -> bool {
    e.is_dir && e.has_package_manifest && e.name@ != "packages"@ && e.name@ != "staging"@
}

/// Checks that the workspace root is a directory.
pub fn check_workspace_root(is_dir: bool, root_display: &str) -> (r: AppResult<()>)
    ensures
        is_dir ==> r is Ok,
        !is_dir ==> (r matches Err(e) && e is Validation && e->Validation_0@
            == "conversation adapter workspace root is not a directory: "@ + root_display@),
{
    if is_dir {
        Ok(())
    } else {
        Err(AppError::Validation(message_with("conversation adapter workspace root is not a directory: ", root_display)))
    }
}

/// The names of the workspace's package directories, in increasing order.
pub fn select_workspace_package_dirs(entries: &Vec<WorkspaceEntry>) -> (r: Vec<String>)
    ensures
        crate::order::ascending(crate::order::text_views(r@)),
        forall|y: Seq<char>|
            crate::order::text_views(r@).contains(y) <==> exists|i: int|
                0 <= i < entries@.len() && workspace_package_entry(#[trigger] entries@[i]) && entries@[i].name@ == y,
{
    let mut names: Vec<String> = Vec::new();
    let mut i: usize = 0;
    while i < entries.len()
        invariant
            i <= entries@.len(),
            forall|y: Seq<char>|
                crate::order::text_views(names@).contains(y) <==> exists|k: int|
                    0 <= k < i && workspace_package_entry(#[trigger] entries@[k]) && entries@[k].name@ == y,
        decreases entries.len() - i,
    {
        let e = &entries[i];
        let keep = e.is_dir && e.has_package_manifest && !str_eq(e.name.as_str(), "packages") && !str_eq(
            e.name.as_str(),
            "staging",
        );
        let ghost before = crate::order::text_views(names@);
        if keep {
            names.push(e.name.clone());
            assert(crate::order::text_views(names@) =~= before.push(e.name@));
        }
        proof {
            let now = crate::order::text_views(names@);
            assert forall|y: Seq<char>| now.contains(y) <==> exists|k: int|
                0 <= k < i + 1 && workspace_package_entry(#[trigger] entries@[k]) && entries@[k].name@ == y by {
                if now.contains(y) {
                    if before.contains(y) {
                    } else {
                        assert(y == e.name@);
                        assert(workspace_package_entry(entries@[i as int]));
                    }
                }
                if exists|k: int| 0 <= k < i + 1 && workspace_package_entry(#[trigger] entries@[k]) && entries@[k].name@ == y {
                    let k = choose|k: int| 0 <= k < i + 1 && workspace_package_entry(#[trigger] entries@[k]) && entries@[k].name@ == y;
                    if k == i {
                        assert(now[now.len() - 1] == y);
                    } else {
                        assert(before.contains(y));
                        let m = choose|m: int| 0 <= m < before.len() && before[m] == y;
                        assert(now[m] == y);
                    }
                }
            }
        }
        i = i + 1;
    }
    crate::order::sorted_distinct_texts(&names)
}

} // verus!
