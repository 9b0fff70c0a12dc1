//! Preparing a package change: which changes an adapter's origin allows,
//! how risky each change is, and what the change would touch.

use vstd::prelude::*;
use crate::error::{AppError, AppResult};
use crate::models::{
    ConversationAdapterPackage, ConversationAdapterPackageChangeAction, ConversationAdapterPackageChangeRisk,
    ConversationAdapterPackageOrigin, ConversationAdapterPackageVersion, ConversationSource,
};
use crate::script_catalog::{clean_non_empty_string, clean_text, package_for_uninstalled_replacement, str_eq};
use crate::error::message_with;
use crate::models::ConversationAdapter;
use crate::script_catalog::infer_unmanaged_adapter_origin;
use crate::order::{ascending, sorted_distinct_texts, text_views};
use crate::text::{trim, trim_str};
use crate::script_catalog::ConversationAdapterPackageChangePreflight;

verus! {

/// Whether the current package has to be looked up first: an install
/// naming its package and a registration naming its adapter do not.
pub open spec fn needs_inspection(
    action: ConversationAdapterPackageChangeAction,
    package_id_given: bool,
    adapter_id_given: bool,
) -> bool {
    !((action == ConversationAdapterPackageChangeAction::Install && package_id_given) || (action
        == ConversationAdapterPackageChangeAction::Register && adapter_id_given))
}

pub fn package_change_needs_inspection(
    action: ConversationAdapterPackageChangeAction,
    package_id: &Option<String>,
    adapter_id: &Option<String>,
) -> (r: bool)
    ensures
        r == needs_inspection(action, package_id is Some, adapter_id is Some),
{
    let install = action == ConversationAdapterPackageChangeAction::Install && package_id.is_some();
    let register = action == ConversationAdapterPackageChangeAction::Register && adapter_id.is_some();
    !(install || register)
}

/// The origin a change works on: the inspected one, else a local
/// directory for a registration and a managed release otherwise.
pub open spec fn change_origin(
    action: ConversationAdapterPackageChangeAction,
    inspected: Option<ConversationAdapterPackageOrigin>,
) -> ConversationAdapterPackageOrigin {
    match inspected {
        Some(o) => o,
        None => if action == ConversationAdapterPackageChangeAction::Register {
            ConversationAdapterPackageOrigin::LocalDirectory
        } else {
            ConversationAdapterPackageOrigin::ManagedRelease
        },
    }
}

pub fn package_change_origin(
    action: ConversationAdapterPackageChangeAction,
    inspected: Option<ConversationAdapterPackageOrigin>,
) -> (r: ConversationAdapterPackageOrigin)
    ensures
        r == change_origin(action, inspected),
{
    match inspected {
        Some(o) => o,
        None => if action == ConversationAdapterPackageChangeAction::Register {
            ConversationAdapterPackageOrigin::LocalDirectory
        } else {
            ConversationAdapterPackageOrigin::ManagedRelease
        },
    }
}

/// Why a change is not allowed for a package of this origin, if it is not:
/// built-in adapters are disabled, not uninstalled; managed packages are
/// uninstalled, not unregistered; only managed packages are uninstalled.
pub open spec fn change_refusal(
    action: ConversationAdapterPackageChangeAction,
    origin: ConversationAdapterPackageOrigin,
) -> Option<Seq<char>> {
    if origin == ConversationAdapterPackageOrigin::BuiltIn && action == ConversationAdapterPackageChangeAction::Uninstall {
        Some("built-in conversation adapters use disable, not package uninstall"@)
    } else if action == ConversationAdapterPackageChangeAction::Unregister && origin
        == ConversationAdapterPackageOrigin::ManagedRelease {
        Some("managed conversation adapter packages must be uninstalled, not unregistered"@)
    } else if action == ConversationAdapterPackageChangeAction::Uninstall && origin
        != ConversationAdapterPackageOrigin::ManagedRelease {
        Some("only managed conversation adapter packages can be uninstalled"@)
    } else {
        None
    }
}

pub fn check_package_change_allowed(
    action: ConversationAdapterPackageChangeAction,
    origin: ConversationAdapterPackageOrigin,
) -> (r: AppResult<()>)
    ensures
        match change_refusal(action, origin) {
            None => r is Ok,
            Some(m) => r matches Err(e) && e is Validation && e->Validation_0@ == m,
        },
{
    if origin == ConversationAdapterPackageOrigin::BuiltIn && action == ConversationAdapterPackageChangeAction::Uninstall {
        return Err(AppError::Validation(String::from_str(
            "built-in conversation adapters use disable, not package uninstall",
        )));
    }
    if action == ConversationAdapterPackageChangeAction::Unregister && origin
        == ConversationAdapterPackageOrigin::ManagedRelease {
        return Err(AppError::Validation(String::from_str(
            "managed conversation adapter packages must be uninstalled, not unregistered",
        )));
    }
    if action == ConversationAdapterPackageChangeAction::Uninstall && origin
        != ConversationAdapterPackageOrigin::ManagedRelease {
        return Err(AppError::Validation(String::from_str(
            "only managed conversation adapter packages can be uninstalled",
        )));
    }
    Ok(())
}

/// Revalidation only reads, unregistering writes records, and every other
/// change rewrites installed files.
pub open spec fn change_risk(action: ConversationAdapterPackageChangeAction) -> ConversationAdapterPackageChangeRisk {
    match action {
        ConversationAdapterPackageChangeAction::Revalidate => ConversationAdapterPackageChangeRisk::ReadOnly,
        ConversationAdapterPackageChangeAction::Unregister => ConversationAdapterPackageChangeRisk::Write,
        _ => ConversationAdapterPackageChangeRisk::HighRiskWrite,
    }
}

pub fn package_change_risk(action: ConversationAdapterPackageChangeAction) -> (r: ConversationAdapterPackageChangeRisk)
    ensures
        r == change_risk(action),
{
    match action {
        ConversationAdapterPackageChangeAction::Revalidate => ConversationAdapterPackageChangeRisk::ReadOnly,
        ConversationAdapterPackageChangeAction::Unregister => ConversationAdapterPackageChangeRisk::Write,
        _ => ConversationAdapterPackageChangeRisk::HighRiskWrite,
    }
}

/// What the lookup of the current package found.
pub struct PackageInspectionSummary {
    pub origin: ConversationAdapterPackageOrigin,
    pub package_id: Option<String>,
    pub adapter_id: Option<String>,
    pub affected_sources: Vec<ConversationSource>,
}

/// The adapter a change concerns: the inspected one, else the requested one.
pub fn package_change_adapter_id(
    inspection: &Option<PackageInspectionSummary>,
    adapter_id: &Option<String>,
) -> (r: Option<String>)
    ensures
        r == match inspection {
            Some(i) => match i.adapter_id {
                Some(a) => Some(a),
                None => *adapter_id,
            },
            None => *adapter_id,
        },
{
    match inspection {
        Some(i) => match &i.adapter_id {
            Some(a) => Some(a.clone()),
            None => adapter_id.clone(),
        },
        None => adapter_id.clone(),
    }
}

/// The preflight of an allowed change: the package and adapter it concerns
/// (as inspected, else as requested), the managed directories it may remove
/// (distinct, in order), the sources it affects, a running sync as a task
/// conflict, its risk, and whether it must be confirmed.
pub fn package_change_preflight(
    action: ConversationAdapterPackageChangeAction,
    origin: ConversationAdapterPackageOrigin,
    package_id: Option<String>,
    adapter_id: Option<String>,
    inspection: Option<PackageInspectionSummary>,
    managed_paths: &Vec<String>,
    sync_running: bool,
) -> (r: ConversationAdapterPackageChangePreflight)
    ensures
        r.action == action,
        r.origin == origin,
        r.package_id == match inspection {
            Some(i) => match i.package_id {
                Some(p) => Some(p),
                None => package_id,
            },
            None => package_id,
        },
        r.adapter_id == adapter_id,
        ascending(text_views(r.managed_paths@)),
        forall|y: Seq<char>| text_views(r.managed_paths@).contains(y) <==> text_views(managed_paths@).contains(y),
        r.affected_sources@ == match inspection {
            Some(i) => i.affected_sources@,
            None => Seq::empty(),
        },
        text_views(r.task_conflicts@) == if sync_running {
            seq!["conversation_sync"@]
        } else {
            Seq::empty()
        },
        r.preserves_conversation_records,
        r.risk == change_risk(action),
        r.confirmation_required == (change_risk(action) != ConversationAdapterPackageChangeRisk::ReadOnly),
{
    let mut task_conflicts: Vec<String> = Vec::new();
    if sync_running {
        task_conflicts.push(String::from_str("conversation_sync"));
        assert(text_views(task_conflicts@) =~= seq!["conversation_sync"@]);
    } else {
        assert(text_views(task_conflicts@) =~= Seq::<Seq<char>>::empty());
    }
    let risk = package_change_risk(action);
    let (package_id, affected_sources) = match inspection {
        Some(i) => (
            match i.package_id {
                Some(p) => Some(p),
                None => package_id,
            },
            i.affected_sources,
        ),
        None => (package_id, Vec::new()),
    };
    ConversationAdapterPackageChangePreflight {
        action,
        origin,
        package_id,
        adapter_id,
        managed_paths: sorted_distinct_texts(managed_paths),
        affected_sources,
        task_conflicts,
        preserves_conversation_records: true,
        risk,
        confirmation_required: risk != ConversationAdapterPackageChangeRisk::ReadOnly,
    }
}

/// What deleting an installed version does to the package record.
pub struct PackageVersionDeletePlan {
    /// The version to delete, trimmed.
    pub version: String,
    /// Index of that version among the installed versions.
    pub target: usize,
    /// The record that replaces the package when its active version goes and
    /// another version remains.
    pub replacement: Option<ConversationAdapterPackage>,
    /// The package record goes too: its active version goes and none remains.
    pub delete_package_record: bool,
}

/// The first installed version with this version text.
pub open spec fn version_index(versions: Seq<ConversationAdapterPackageVersion>, version: Seq<char>, n: int) -> Option<int>
    decreases n,
{
    if n <= 0 {
        None
    } else {
        match version_index(versions, version, n - 1) {
            Some(j) => Some(j),
            None => if versions[n - 1].version@ == version {
                Some(n - 1)
            } else {
                None
            },
        }
    }
}

/// The first installed version other than `version`.
pub open spec fn first_other_version(versions: Seq<ConversationAdapterPackageVersion>, version: Seq<char>, n: int) -> Option<int>
    decreases n,
{
    if n <= 0 {
        None
    } else {
        match first_other_version(versions, version, n - 1) {
            Some(j) => Some(j),
            None => if versions[n - 1].version@ != version {
                Some(n - 1)
            } else {
                None
            },
        }
    }
}

/// Why a version delete is refused, if it is, checked in order.
pub open spec fn version_delete_refusal(
    package_id: Seq<char>,
    version: Option<Seq<char>>,
    package: Option<ConversationAdapterPackage>,
    runtime_registered: bool,
    versions: Seq<ConversationAdapterPackageVersion>,
) -> Option<(bool, Seq<char>)> {
    match version {
        None => Some((false, "conversation adapter package version is required"@)),
        Some(v) => match package {
            None => Some((false, "conversation adapter package not found: "@ + package_id)),
            Some(p) => if p.origin != ConversationAdapterPackageOrigin::ManagedRelease {
                Some((true, "only managed package versions can be deleted"@))
            } else if p.version@ == v && runtime_registered {
                Some((true, "active conversation adapter package version must be uninstalled or switched before deletion"@))
            } else if version_index(versions, v, versions.len() as int) is None {
                Some((false, "installed package version not found: "@ + package_id + "@"@ + v))
            } else {
                None
            },
        },
    }
}

proof fn lemma_first_index(versions: Seq<ConversationAdapterPackageVersion>, version: Seq<char>, n: int)
    requires
        0 <= n <= versions.len(),
    ensures
        match version_index(versions, version, n) {
            Some(j) => 0 <= j < n && versions[j].version@ == version,
            None => forall|m: int| 0 <= m < n ==> (#[trigger] versions[m]).version@ != version,
        },
        match first_other_version(versions, version, n) {
            Some(j) => 0 <= j < n && versions[j].version@ != version,
            None => forall|m: int| 0 <= m < n ==> (#[trigger] versions[m]).version@ == version,
        },
    decreases n,
{
    if n > 0 {
        lemma_first_index(versions, version, n - 1);
    }
}

/// Plans the delete of an installed version of a managed package: the
/// version must be given, the package known and managed, the version not
/// active while its adapter runs, and installed. Deleting the active
/// version of a stopped adapter hands the package to the first remaining
/// version, or removes the record when none remains.
pub fn plan_package_version_delete(
    package_id: &str,
    version: Option<&str>,
    package: Option<&ConversationAdapterPackage>,
    runtime_registered: bool,
    versions: &Vec<ConversationAdapterPackageVersion>,
) -> (r: AppResult<PackageVersionDeletePlan>)
    ensures
        ({
            let v = match version {
                Some(t) => clean_text(t@),
                None => None,
            };
            let p = match package {
                Some(x) => Some(*x),
                None => None,
            };
            match version_delete_refusal(trim(package_id@), v, p, runtime_registered, versions@) {
                Some((is_validation, m)) => r matches Err(e) && (if is_validation {
                    e is Validation && e->Validation_0@ == m
                } else {
                    e is Other && e->Other_0@ == m
                }),
                None => r matches Ok(plan) && {
                    let pk = p->0;
                    let ver = v->0;
                    let active = pk.version@ == ver;
                    &&& plan.version@ == ver
                    &&& version_index(versions@, ver, versions@.len() as int) == Some(plan.target as int)
                    &&& plan.delete_package_record == (active && first_other_version(
                        versions@,
                        ver,
                        versions@.len() as int,
                    ) is None)
                    &&& (active ==> match first_other_version(versions@, ver, versions@.len() as int) {
                        Some(k) => plan.replacement matches Some(rp) && rp.version == versions@[k].version
                            && rp.install_dir == versions@[k].install_dir && rp.package_id == pk.package_id,
                        None => plan.replacement is None,
                    })
                    &&& (!active ==> plan.replacement is None)
                },
            }
        }),
{
    let package_id = trim_str(package_id);
    let version = match version {
        Some(t) => clean_non_empty_string(t),
        None => None,
    };
    let version = match version {
        Some(v) => v,
        None => {
            return Err(AppError::Other(String::from_str("conversation adapter package version is required")));
        },
    };
    let package = match package {
        Some(p) => p,
        None => {
            return Err(AppError::Other(message_with("conversation adapter package not found: ", package_id.as_str())));
        },
    };
    if package.origin != ConversationAdapterPackageOrigin::ManagedRelease {
        return Err(AppError::Validation(String::from_str("only managed package versions can be deleted")));
    }
    let active = str_eq(package.version.as_str(), version.as_str());
    if active && runtime_registered {
        return Err(AppError::Validation(String::from_str(
            "active conversation adapter package version must be uninstalled or switched before deletion",
        )));
    }
    let ghost vs = versions@;
    proof {
        lemma_first_index(vs, version@, vs.len() as int);
    }
    let mut target: Option<usize> = None;
    let mut other: Option<usize> = None;
    let mut i: usize = 0;
    while i < versions.len()
        invariant
            i <= vs.len(),
            vs == versions@,
            match target {
                Some(t) => version_index(vs, version@, i as int) == Some(t as int),
                None => version_index(vs, version@, i as int) is None,
            },
            match other {
                Some(o) => first_other_version(vs, version@, i as int) == Some(o as int),
                None => first_other_version(vs, version@, i as int) is None,
            },
        decreases versions.len() - i,
    {
        let same = str_eq(versions[i].version.as_str(), version.as_str());
        if same && target.is_none() {
            target = Some(i);
        }
        if !same && other.is_none() {
            other = Some(i);
        }
        i = i + 1;
    }
    let target = match target {
        Some(t) => t,
        None => {
            let mut m = message_with("installed package version not found: ", package_id.as_str());
            m.append("@");
            m.append(version.as_str());
            return Err(AppError::Other(m));
        },
    };
    let replacement = if active {
        match other {
            Some(k) => Some(package_for_uninstalled_replacement(package, &versions[k])),
            None => None,
        }
    } else {
        None
    };
    let delete_package_record = active && other.is_none();
    Ok(PackageVersionDeletePlan { version, target, replacement, delete_package_record })
}

/// Why switching a package to an installed version is refused, if it is,
/// checked in order: an actual switch must be confirmed, the package known
/// and managed, and the version installed.
pub open spec fn activation_refusal(
    dry_run: bool,
    yes: bool,
    package_id: Seq<char>,
    version: Seq<char>,
    package: Option<ConversationAdapterPackage>,
    versions: Seq<ConversationAdapterPackageVersion>,
) -> Option<(bool, Seq<char>)> {
    if !dry_run && !yes {
        Some((true, "conversation adapter package version activation requires --yes"@))
    } else {
        match package {
            None => Some((false, "conversation adapter package not found: "@ + package_id)),
            Some(p) => if p.origin != ConversationAdapterPackageOrigin::ManagedRelease {
                Some((true, "only managed package versions can be activated"@))
            } else if version_index(versions, version, versions.len() as int) is None {
                Some((false, "installed package version not found: "@ + package_id + "@"@ + version))
            } else {
                None
            },
        }
    }
}

/// Checks a version switch; on success, the index of the installed version.
pub fn check_version_activation(
    dry_run: bool,
    yes: bool,
    package_id: &str,
    version: &str,
    package: Option<&ConversationAdapterPackage>,
    versions: &Vec<ConversationAdapterPackageVersion>,
) -> (r: AppResult<usize>)
    ensures
        match activation_refusal(
            dry_run,
            yes,
            package_id@,
            version@,
            match package {
                Some(x) => Some(*x),
                None => None,
            },
            versions@,
        ) {
            Some((is_validation, m)) => r matches Err(e) && (if is_validation {
                e is Validation && e->Validation_0@ == m
            } else {
                e is Other && e->Other_0@ == m
            }),
            None => r matches Ok(k) && version_index(versions@, version@, versions@.len() as int) == Some(k as int),
        },
{
    if !dry_run && !yes {
        return Err(AppError::Validation(String::from_str(
            "conversation adapter package version activation requires --yes",
        )));
    }
    let pkg = match package {
        Some(p) => p,
        None => {
            return Err(AppError::Other(message_with("conversation adapter package not found: ", package_id)));
        },
    };
    if pkg.origin != ConversationAdapterPackageOrigin::ManagedRelease {
        return Err(AppError::Validation(String::from_str("only managed package versions can be activated")));
    }
    let ghost vs = versions@;
    let mut i: usize = 0;
    while i < versions.len()
        invariant
            i <= vs.len(),
            vs == versions@,
            version_index(vs, version@, i as int) is None,
            dry_run || yes,
            pkg.origin == ConversationAdapterPackageOrigin::ManagedRelease,
            package == Some(pkg),
        decreases versions.len() - i,
    {
        if str_eq(versions[i].version.as_str(), version) {
            proof {
                lemma_version_index_stays(vs, version@, i as int, vs.len() as int);
            }
            return Ok(i);
        }
        i = i + 1;
    }
    let mut m = message_with("installed package version not found: ", package_id);
    m.append("@");
    m.append(version);
    Err(AppError::Other(m))
}

proof fn lemma_version_index_stays(vs: Seq<ConversationAdapterPackageVersion>, v: Seq<char>, i: int, n: int)
    requires
        0 <= i < n <= vs.len(),
        version_index(vs, v, i) is None,
        vs[i].version@ == v,
    ensures
        version_index(vs, v, n) == Some(i),
    decreases n - i,
{
    if n > i + 1 {
        lemma_version_index_stays(vs, v, i, n - 1);
    }
}

/// A version directory passes its immutable check when it holds that
/// package and version with the content hash recorded at install.
pub fn check_activation_validation(
    package_id: &str,
    version: &str,
    recorded_hash: &str,
    validation: &crate::adapter_installer::ConversationAdapterPackageValidationResult,
) -> (r: AppResult<()>)
    ensures
        (validation.manifest.package_id@ == package_id@ && validation.manifest.version@ == version@
            && validation.content_hash@ == recorded_hash@) ==> r is Ok,
        !(validation.manifest.package_id@ == package_id@ && validation.manifest.version@ == version@
            && validation.content_hash@ == recorded_hash@) ==> (r matches Err(e) && e is Validation
            && e->Validation_0@ == "installed conversation adapter package version failed immutable validation"@),
{
    if !str_eq(validation.manifest.package_id.as_str(), package_id) || !str_eq(
        validation.manifest.version.as_str(),
        version,
    ) || !str_eq(validation.content_hash.as_str(), recorded_hash) {
        return Err(AppError::Validation(String::from_str(
            "installed conversation adapter package version failed immutable validation",
        )));
    }
    Ok(())
}

/// The package record once an installed version is active again: its
/// version, directory and manifests, ready, with the validated and the
/// recorded content hash; everything else as it was.
pub fn activated_package_record(
    package: &ConversationAdapterPackage,
    target: &ConversationAdapterPackageVersion,
    validation: &crate::adapter_installer::ConversationAdapterPackageValidationResult,
) -> (r: ConversationAdapterPackage)
    ensures
        r.version == target.version,
        r.install_dir == target.install_dir,
        r.manifest_path == validation.manifest_path,
        r.adapter_manifest_path == validation.adapter_manifest_path,
        r.runtime_ready,
        r.runtime_gate_status == crate::models::ConversationAdapterRuntimeGateStatus::Ready,
        r.runtime_validated_at == Some(r.updated_at),
        r.installed_content_hash == Some(validation.content_hash),
        r.trusted_package_hash == Some(target.content_hash),
        r.error_message is None,
        r.package_id == package.package_id,
        r.adapter_id == package.adapter_id,
        r.name == package.name,
        r.record_kind == package.record_kind,
        r.runtime_protocol == package.runtime_protocol,
        r.origin == package.origin,
        r.source_url == package.source_url,
        r.git_ref == package.git_ref,
        r.git_commit == package.git_commit,
        r.catalog_url == package.catalog_url,
        r.update_policy == package.update_policy,
        r.latest_version == package.latest_version,
        r.last_checked_at == package.last_checked_at,
        r.created_at == package.created_at,
{
    let now = crate::clock::now_rfc3339();
    let mut r = package.duplicate();
    r.version = target.version.clone();
    r.install_dir = target.install_dir.clone();
    r.manifest_path = validation.manifest_path.clone();
    r.adapter_manifest_path = validation.adapter_manifest_path.clone();
    r.runtime_ready = true;
    r.runtime_gate_status = crate::models::ConversationAdapterRuntimeGateStatus::Ready;
    r.runtime_validated_at = Some(now.clone());
    r.installed_content_hash = Some(validation.content_hash.clone());
    r.trusted_package_hash = Some(target.content_hash.clone());
    r.error_message = None;
    r.updated_at = now;
    r
}

/// How an inspection looks the package up: by package id when one is
/// given, else by adapter id.
pub enum PackageLookupKey {
    ByPackage(String),
    ByAdapter(String),
}

/// The lookup of an inspection; one of the two ids is needed.
pub fn inspection_lookup_key(package_id: &Option<String>, adapter_id: &Option<String>) -> (r: AppResult<PackageLookupKey>)
    ensures
        package_id matches Some(p) ==> (r matches Ok(PackageLookupKey::ByPackage(k)) && k == p),
        package_id is None ==> (adapter_id matches Some(a) ==> (r matches Ok(PackageLookupKey::ByAdapter(k)) && k == a)),
        package_id is None && adapter_id is None ==> (r matches Err(e) && e is Validation && e->Validation_0@
            == "conversation adapter package inspection requires package_id or adapter_id"@),
{
    match package_id {
        Some(p) => Ok(PackageLookupKey::ByPackage(p.clone())),
        None => match adapter_id {
            Some(a) => Ok(PackageLookupKey::ByAdapter(a.clone())),
            None => Err(AppError::Validation(String::from_str(
                "conversation adapter package inspection requires package_id or adapter_id",
            ))),
        },
    }
}

/// The adapter an inspection concerns: the package's, else the requested one.
pub fn inspection_adapter_id(package: &Option<ConversationAdapterPackage>, adapter_id: &Option<String>) -> (r: Option<String>)
    ensures
        r == match package {
            Some(p) => Some(p.adapter_id),
            None => *adapter_id,
        },
{
    match package {
        Some(p) => Some(p.adapter_id.clone()),
        None => crate::models::clone_opt(adapter_id),
    }
}

/// What an inspection reports.
pub struct ConversationAdapterPackageInspection {
    pub origin: ConversationAdapterPackageOrigin,
    pub package: Option<ConversationAdapterPackage>,
    pub adapter: Option<ConversationAdapter>,
    pub affected_sources: Vec<ConversationSource>,
}

/// The sources of the adapter among the first `n`, in order.
pub open spec fn sources_of(sources: Seq<ConversationSource>, adapter_id: Seq<char>, n: int) -> Seq<ConversationSource>
    decreases n,
{
    if n <= 0 {
        Seq::empty()
    } else if sources[n - 1].adapter_id@ == adapter_id {
        sources_of(sources, adapter_id, n - 1).push(sources[n - 1])
    } else {
        sources_of(sources, adapter_id, n - 1)
    }
}

/// The inspection of what was found: nothing found is reported under the
/// requested id; the origin is the package's, else inferred from the
/// adapter; the affected sources are those of the concerned adapter.
pub fn conversation_adapter_package_inspection(
    package_id: Option<String>,
    adapter_id: Option<String>,
    package: Option<ConversationAdapterPackage>,
    adapter: Option<ConversationAdapter>,
    sources: Vec<ConversationSource>,
) -> (r: AppResult<ConversationAdapterPackageInspection>)
    ensures
        package is None && adapter is None ==> (r matches Err(e) && e is NotFound && e->NotFound_0@
            == "conversation adapter package not found: "@ + match package_id {
            Some(p) => p@,
            None => match adapter_id {
                Some(a) => a@,
                None => Seq::empty(),
            },
        }),
        !(package is None && adapter is None) ==> (r matches Ok(i) && {
            &&& i.origin == match package {
                Some(p) => p.origin,
                None => if adapter is Some && adapter->0.trust_state == crate::models::ConversationAdapterTrustState::BuiltIn {
                    ConversationAdapterPackageOrigin::BuiltIn
                } else {
                    ConversationAdapterPackageOrigin::LegacyExternal
                },
            }
            &&& i.package == package
            &&& i.adapter == adapter
            &&& i.affected_sources@ == match (match package {
                Some(p) => Some(p.adapter_id),
                None => adapter_id,
            }) {
                Some(a) => sources_of(sources@, a@, sources@.len() as int),
                None => Seq::empty(),
            }
        }),
{
    if package.is_none() && adapter.is_none() {
        let id = match package_id {
            Some(p) => p,
            None => match adapter_id {
                Some(a) => a,
                None => String::new(),
            },
        };
        return Err(AppError::NotFound(message_with("conversation adapter package not found: ", id.as_str())));
    }
    let resolved = inspection_adapter_id(&package, &adapter_id);
    let origin = match &package {
        Some(p) => p.origin,
        None => infer_unmanaged_adapter_origin(adapter.as_ref()),
    };
    let mut affected_sources: Vec<ConversationSource> = Vec::new();
    if let Some(a) = &resolved {
        let ghost all = sources@;
        let mut rest = sources;
        while rest.len() > 0
            invariant
                rest@ == all.skip(all.len() - rest@.len()),
                rest@.len() <= all.len(),
                affected_sources@ == sources_of(all, a@, all.len() - rest@.len()),
            decreases rest.len(),
        {
            let ghost k = all.len() - rest@.len();
            let s = rest.remove(0);
            assert(s == all[k]);
            assert(rest@ =~= all.skip(k + 1));
            if str_eq(s.adapter_id.as_str(), a.as_str()) {
                affected_sources.push(s);
            }
        }
    }
    Ok(ConversationAdapterPackageInspection { origin, package, adapter, affected_sources })
}

/// Why a local registration request is refused before anything is read,
/// if it is: the origin must be a local one, a real registration must be
/// confirmed, and a Git registration must name its ref.
pub open spec fn local_registration_refusal(
    origin: ConversationAdapterPackageOrigin,
    dry_run: bool,
    yes: bool,
    git_ref: Option<Seq<char>>,
) -> Option<Seq<char>> {
    if !(origin == ConversationAdapterPackageOrigin::LocalDirectory || origin == ConversationAdapterPackageOrigin::GitRef
        || origin == ConversationAdapterPackageOrigin::DevOverride) {
        Some("local conversation adapter registration requires local_directory, git_ref, or dev_override origin"@)
    } else if !dry_run && !yes {
        Some("conversation adapter local registration requires confirmation"@)
    } else if origin == ConversationAdapterPackageOrigin::GitRef && (match git_ref {
        Some(g) => clean_text(g) is None,
        None => true,
    }) {
        Some("git_ref conversation adapter registration requires git_ref"@)
    } else {
        None
    }
}

pub fn check_local_registration_request(
    origin: ConversationAdapterPackageOrigin,
    dry_run: bool,
    yes: bool,
    git_ref: Option<&str>,
) -> (r: AppResult<()>)
    ensures
        match local_registration_refusal(
            origin,
            dry_run,
            yes,
            match git_ref {
                Some(g) => Some(g@),
                None => None,
            },
        ) {
            None => r is Ok,
            Some(m) => r matches Err(e) && e is Validation && e->Validation_0@ == m,
        },
{
    match origin {
        ConversationAdapterPackageOrigin::LocalDirectory
        | ConversationAdapterPackageOrigin::GitRef
        | ConversationAdapterPackageOrigin::DevOverride => {},
        _ => {
            return Err(AppError::Validation(String::from_str(
                "local conversation adapter registration requires local_directory, git_ref, or dev_override origin",
            )));
        },
    }
    if !dry_run && !yes {
        return Err(AppError::Validation(String::from_str(
            "conversation adapter local registration requires confirmation",
        )));
    }
    if origin == ConversationAdapterPackageOrigin::GitRef {
        let named = match git_ref {
            Some(g) => clean_non_empty_string(g).is_some(),
            None => false,
        };
        if !named {
            return Err(AppError::Validation(String::from_str(
                "git_ref conversation adapter registration requires git_ref",
            )));
        }
    }
    Ok(())
}

/// A local package may not take the place of an installed managed one.
pub fn check_local_registration_target(existing: Option<&ConversationAdapterPackage>) -> (r: AppResult<()>)
    ensures
        (existing matches Some(p) && p.origin == ConversationAdapterPackageOrigin::ManagedRelease) ==> (r matches Err(e)
            && e is Validation && e->Validation_0@ == "managed conversation adapter package is already installed: "@
            + existing->0.package_id@),
        !(existing matches Some(p) && p.origin == ConversationAdapterPackageOrigin::ManagedRelease) ==> r is Ok,
{
    if let Some(p) = existing {
        if p.origin == ConversationAdapterPackageOrigin::ManagedRelease {
            return Err(AppError::Validation(message_with(
                "managed conversation adapter package is already installed: ",
                p.package_id.as_str(),
            )));
        }
    }
    Ok(())
}

/// The record of a locally registered package: ready where it lies, pinned,
/// with the given source, ref and commit (blank ones dropped), trusted by
/// its content hash unless it is a developer override.
pub fn local_package_record(
    validation: &crate::adapter_installer::ConversationAdapterPackageValidationResult,
    adapter_id: &str,
    package_dir: &str,
    origin: ConversationAdapterPackageOrigin,
    source_url: Option<&str>,
    git_ref: Option<&str>,
    git_commit: Option<&str>,
) -> (p: ConversationAdapterPackage)
    ensures
        p.package_id == validation.manifest.package_id,
        p.adapter_id@ == adapter_id@,
        p.name == validation.manifest.name,
        p.version == validation.manifest.version,
        p.record_kind == validation.manifest.record_kind,
        p.install_dir@ == package_dir@,
        p.manifest_path == validation.manifest_path,
        p.adapter_manifest_path == validation.adapter_manifest_path,
        p.runtime_protocol == validation.manifest.runtime_protocol,
        p.runtime_ready,
        p.origin == origin,
        crate::text::opt_view(p.source_url) == match source_url {
            Some(u) => clean_text(u@),
            None => None,
        },
        crate::text::opt_view(p.git_ref) == match git_ref {
            Some(g) => clean_text(g@),
            None => None,
        },
        crate::text::opt_view(p.git_commit) == match git_commit {
            Some(c) => clean_text(c@),
            None => None,
        },
        p.catalog_url is None,
        p.update_policy == crate::models::ConversationPackageUpdatePolicy::PinExact,
        p.latest_version is None,
        p.last_checked_at is None,
        p.runtime_gate_status == crate::models::ConversationAdapterRuntimeGateStatus::Ready,
        p.runtime_validated_at == Some(p.updated_at),
        p.installed_content_hash == Some(validation.content_hash),
        p.trusted_package_hash == if origin != ConversationAdapterPackageOrigin::DevOverride {
            Some(validation.content_hash)
        } else {
            None
        },
        p.error_message is None,
        p.created_at == p.updated_at,
{
    let now = crate::clock::now_rfc3339();
    ConversationAdapterPackage {
        package_id: validation.manifest.package_id.clone(),
        adapter_id: String::from_str(adapter_id),
        name: validation.manifest.name.clone(),
        version: validation.manifest.version.clone(),
        record_kind: validation.manifest.record_kind,
        install_dir: String::from_str(package_dir),
        manifest_path: validation.manifest_path.clone(),
        adapter_manifest_path: validation.adapter_manifest_path.clone(),
        runtime_protocol: validation.manifest.runtime_protocol.clone(),
        runtime_ready: true,
        origin,
        source_url: match source_url {
            Some(u) => clean_non_empty_string(u),
            None => None,
        },
        git_ref: match git_ref {
            Some(g) => clean_non_empty_string(g),
            None => None,
        },
        git_commit: match git_commit {
            Some(c) => clean_non_empty_string(c),
            None => None,
        },
        catalog_url: None,
        update_policy: crate::models::ConversationPackageUpdatePolicy::PinExact,
        latest_version: None,
        last_checked_at: None,
        runtime_gate_status: crate::models::ConversationAdapterRuntimeGateStatus::Ready,
        runtime_validated_at: Some(now.clone()),
        installed_content_hash: Some(validation.content_hash.clone()),
        trusted_package_hash: if origin != ConversationAdapterPackageOrigin::DevOverride {
            Some(validation.content_hash.clone())
        } else {
            None
        },
        error_message: None,
        created_at: now.clone(),
        updated_at: now,
    }
}

/// What unregistering an adapter comes to.
#[derive(Debug, Clone, Copy, PartialEq, Eq, Structural)]
pub enum AdapterUnregisterStep {
    /// Only report what would happen.
    Preview,
    /// Built-in adapters are disabled, never removed.
    DisableBuiltIn,
    /// Remove the adapter's registration.
    DeleteRegistration,
}

/// Decides an unregister: running tasks conflict with it, a real one must
/// be confirmed, the adapter must exist; built-in adapters are disabled.
pub fn plan_adapter_unregister(
    preflight: &ConversationAdapterPackageChangePreflight,
    dry_run: bool,
    yes: bool,
    adapter_id: &str,
    adapter: Option<&ConversationAdapter>,
) -> (r: AppResult<AdapterUnregisterStep>)
    ensures
        preflight.task_conflicts@.len() > 0 ==> (r matches Err(e) && e is Conflict && e->Conflict_0@
            == "conversation adapter unregister conflicts with running tasks: "@ + crate::text::join_with(
            text_views(preflight.task_conflicts@),
            ", "@,
        )),
        preflight.task_conflicts@.len() == 0 && !dry_run && !yes ==> (r matches Err(e) && e is Validation
            && e->Validation_0@ == "conversation.adapter.unregister requires --yes"@),
        preflight.task_conflicts@.len() == 0 && (dry_run || yes) && adapter is None ==> (r matches Err(e)
            && e is NotFound && e->NotFound_0@ == "conversation adapter not found: "@ + adapter_id@),
        preflight.task_conflicts@.len() == 0 && (dry_run || yes) && adapter is Some ==> r == Ok::<
            AdapterUnregisterStep,
            AppError,
        >(
            if dry_run {
                AdapterUnregisterStep::Preview
            } else if adapter->0.trust_state == crate::models::ConversationAdapterTrustState::BuiltIn {
                AdapterUnregisterStep::DisableBuiltIn
            } else {
                AdapterUnregisterStep::DeleteRegistration
            },
        ),
{
    if preflight.task_conflicts.len() > 0 {
        let list = crate::script_catalog::join_strings(&preflight.task_conflicts, ", ");
        assert(crate::script_catalog::string_views(preflight.task_conflicts@) == text_views(preflight.task_conflicts@));
        return Err(AppError::Conflict(message_with(
            "conversation adapter unregister conflicts with running tasks: ",
            list.as_str(),
        )));
    }
    if !dry_run && !yes {
        return Err(AppError::Validation(String::from_str("conversation.adapter.unregister requires --yes")));
    }
    let adapter = match adapter {
        Some(a) => a,
        None => {
            return Err(AppError::NotFound(message_with("conversation adapter not found: ", adapter_id)));
        },
    };
    if dry_run {
        Ok(AdapterUnregisterStep::Preview)
    } else if adapter.trust_state == crate::models::ConversationAdapterTrustState::BuiltIn {
        Ok(AdapterUnregisterStep::DisableBuiltIn)
    } else {
        Ok(AdapterUnregisterStep::DeleteRegistration)
    }
}

/// Checks an update request once its preflight passed and no task runs
/// on the package: a real update must be confirmed. On success, whether the
/// request names a release version (then that release is installed; else
/// the package's catalog entry).
pub fn check_package_update_request(dry_run: bool, yes: bool, version: Option<&str>) -> (r: AppResult<bool>)
    ensures
        !dry_run && !yes ==> (r matches Err(e) && e is Validation && e->Validation_0@
            == "conversation adapter package update requires --yes"@),
        (dry_run || yes) ==> r == Ok::<bool, AppError>(
            match version {
                Some(v) => trim(v@).len() > 0,
                None => false,
            },
        ),
{
    if !dry_run && !yes {
        return Err(AppError::Validation(String::from_str("conversation adapter package update requires --yes")));
    }
    match version {
        Some(v) => Ok(crate::text::chars_of(trim_str(v).as_str()).len() > 0),
        None => Ok(false),
    }
}

/// Checks an uninstall request: a real uninstall must be confirmed, the
/// package id given and the package installed; on success, the trimmed id.
pub fn check_package_uninstall(
    dry_run: bool,
    yes: bool,
    package_id: &str,
    package: Option<&ConversationAdapterPackage>,
) -> (r: AppResult<String>)
    ensures
        !dry_run && !yes ==> (r matches Err(e) && e is Validation && e->Validation_0@
            == "conversation adapter package uninstall requires --yes"@),
        (dry_run || yes) && trim(package_id@).len() == 0 ==> (r matches Err(e) && e is Validation
            && e->Validation_0@ == "conversation adapter package id is required"@),
        (dry_run || yes) && trim(package_id@).len() > 0 && package is None ==> (r matches Err(e) && e is Other
            && e->Other_0@ == "conversation adapter package not found: "@ + trim(package_id@)),
        (dry_run || yes) && trim(package_id@).len() > 0 && package is Some ==> (r matches Ok(id) && id@ == trim(
            package_id@,
        )),
{
    if !dry_run && !yes {
        return Err(AppError::Validation(String::from_str("conversation adapter package uninstall requires --yes")));
    }
    let id = trim_str(package_id);
    if crate::text::chars_of(id.as_str()).len() == 0 {
        return Err(AppError::Validation(String::from_str("conversation adapter package id is required")));
    }
    if package.is_none() {
        return Err(AppError::Other(message_with("conversation adapter package not found: ", id.as_str())));
    }
    Ok(id)
}

/// Why an installed package's runtime does not pass its gate, if it does
/// not: its directory must hold the registered package at the active
/// version, for the registered adapter, with the trusted content (a
/// developer override is not held to a hash).
pub open spec fn runtime_gate_problem(
    package: ConversationAdapterPackage,
    adapter: Option<ConversationAdapter>,
    validation: crate::adapter_installer::ConversationAdapterPackageValidationResult,
) -> Option<Seq<char>> {
    if validation.manifest.package_id@ != package.package_id@ {
        Some("conversation adapter package manifest id "@ + validation.manifest.package_id@
            + " does not match registered package "@ + package.package_id@)
    } else if validation.manifest.version@ != package.version@ {
        Some("conversation adapter package manifest version "@ + validation.manifest.version@
            + " does not match active version "@ + package.version@)
    } else {
        match adapter {
            None => Some("conversation adapter runtime is not registered: "@ + package.adapter_id@),
            Some(a) => if validation.adapter_validation.manifest.id@ != a.id@ {
                Some("conversation adapter package "@ + package.package_id@ + " manifest adapter id "@
                    + validation.adapter_validation.manifest.id@ + " does not match registered adapter "@ + a.id@)
            } else if package.origin == ConversationAdapterPackageOrigin::DevOverride {
                None
            } else {
                match (match package.trusted_package_hash {
                    Some(h) => Some(h),
                    None => package.installed_content_hash,
                }) {
                    None => Some("conversation adapter package has no trusted hash: "@ + package.package_id@),
                    Some(h) => if validation.content_hash@ != h@ {
                        Some("conversation adapter package content hash mismatch: "@ + package.package_id@)
                    } else {
                        None
                    },
                }
            },
        }
    }
}

fn concat4(a: &str, b: &str, c: &str, d: &str) -> (r: String)
    ensures
        r@ == a@ + b@ + c@ + d@,
{
    let mut r = String::from_str(a);
    r.append(b);
    r.append(c);
    r.append(d);
    r
}

/// Evaluates the runtime gate of an installed package from the validation
/// of its directory (or why that validation failed): on success, the
/// validated content hash; else the reason.
pub fn evaluate_package_runtime(
    package: &ConversationAdapterPackage,
    adapter: Option<&ConversationAdapter>,
    validation: Result<crate::adapter_installer::ConversationAdapterPackageValidationResult, String>,
) -> (r: Result<String, String>)
    ensures
        match validation {
            Err(m) => r matches Err(e) && e@ == m@,
            Ok(v) => match runtime_gate_problem(
                *package,
                match adapter {
                    Some(a) => Some(*a),
                    None => None,
                },
                v,
            ) {
                Some(m) => r matches Err(e) && e@ == m,
                None => r matches Ok(h) && h@ == v.content_hash@,
            },
        },
{
    let validation = match validation {
        Ok(v) => v,
        Err(m) => {
            return Err(m);
        },
    };
    if !str_eq(validation.manifest.package_id.as_str(), package.package_id.as_str()) {
        return Err(concat4(
            "conversation adapter package manifest id ",
            validation.manifest.package_id.as_str(),
            " does not match registered package ",
            package.package_id.as_str(),
        ));
    }
    if !str_eq(validation.manifest.version.as_str(), package.version.as_str()) {
        return Err(concat4(
            "conversation adapter package manifest version ",
            validation.manifest.version.as_str(),
            " does not match active version ",
            package.version.as_str(),
        ));
    }
    let a = match adapter {
        Some(a) => a,
        None => {
            return Err(message_with("conversation adapter runtime is not registered: ", package.adapter_id.as_str()));
        },
    };
    if !str_eq(validation.adapter_validation.manifest.id.as_str(), a.id.as_str()) {
        let mut m = concat4(
            "conversation adapter package ",
            package.package_id.as_str(),
            " manifest adapter id ",
            validation.adapter_validation.manifest.id.as_str(),
        );
        m.append(" does not match registered adapter ");
        m.append(a.id.as_str());
        return Err(m);
    }
    if package.origin != ConversationAdapterPackageOrigin::DevOverride {
        let trusted = match &package.trusted_package_hash {
            Some(h) => Some(h),
            None => package.installed_content_hash.as_ref(),
        };
        match trusted {
            None => {
                return Err(message_with("conversation adapter package has no trusted hash: ", package.package_id.as_str()));
            },
            Some(h) => {
                if !str_eq(validation.content_hash.as_str(), h.as_str()) {
                    return Err(message_with(
                        "conversation adapter package content hash mismatch: ",
                        package.package_id.as_str(),
                    ));
                }
            },
        }
    }
    Ok(validation.content_hash)
}

/// Stores a runtime gate outcome on the package. A pass makes it ready with
/// the validated hash. A failure makes it not ready, with the matching gate
/// status and the failure message. Both note when the check ran.
pub fn record_package_runtime(
    package: &mut ConversationAdapterPackage,
    install_dir: &str,
    evaluated: Result<String, String>,
)
    ensures
        match evaluated {
            Ok(h) => {
                &&& final(package).runtime_ready
                &&& final(package).runtime_gate_status == crate::models::ConversationAdapterRuntimeGateStatus::Ready
                &&& final(package).installed_content_hash == Some(h)
                &&& final(package).error_message is None
            },
            Err(e) => {
                &&& !final(package).runtime_ready
                &&& final(package).runtime_gate_status == crate::script_catalog::gate_status_for_error(e@)
                &&& final(package).error_message == Some(e)
                &&& final(package).installed_content_hash == old(package).installed_content_hash
            },
        },
        final(package).runtime_validated_at == Some(final(package).updated_at),
        final(package).package_id == old(package).package_id,
        final(package).version == old(package).version,
        final(package).install_dir == old(package).install_dir,
        final(package).origin == old(package).origin,
        final(package).trusted_package_hash == old(package).trusted_package_hash,
        final(package).created_at == old(package).created_at,
{
    match evaluated {
        Ok(h) => {
            package.runtime_ready = true;
            package.runtime_gate_status = crate::models::ConversationAdapterRuntimeGateStatus::Ready;
            package.installed_content_hash = Some(h);
            package.error_message = None;
        },
        Err(e) => {
            package.runtime_ready = false;
            package.runtime_gate_status = crate::script_catalog::classify_runtime_gate_error(install_dir, e.as_str());
            package.error_message = Some(e);
        },
    }
    let now = crate::clock::now_rfc3339();
    package.runtime_validated_at = Some(now.clone());
    package.updated_at = now;
}

} // verus!
