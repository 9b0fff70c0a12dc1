//! Installing conversation adapter packages: the install spec, GitHub source
//! locations, managed directories, and the checks an installed package must
//! pass against its spec.

use vstd::prelude::*;
use crate::error::{error_is, AppError, AppResult};
use crate::clock::now_rfc3339;
use crate::error::message_with;
use crate::models::{
    clone_opt, ConversationAdapterPackage, ConversationAdapterPackageOrigin, ConversationAdapterPackageVersion,
    ConversationAdapterPackageRecordKind, ConversationAdapterRuntimeGateStatus,
    ConversationPackageUpdatePolicy,
};
use crate::versions::{semver_parse_error, semver_valid};
use crate::paths::{join, join_str};
use crate::script_catalog::{
    catalog_subpath, clean_relative_file_name, clean_text, github_branch, github_parts, github_path,
    github_repo_url, github_rest, github_source_error, list_contains, lists, parse_github_url,
    relative_file_name, str_eq, unsafe_file_name, validated_package_version,
};
use crate::text::{opt_view, trim};

verus! {

/// Kind of source an install spec fetches.
#[derive(Debug, Clone, Copy, PartialEq, Eq, Structural)]
pub enum ConversationAdapterPackageInstallSourceKind {
    Github,
    ArtifactZip,
    LocalDirectory,
}

/// Source of an install spec.
pub struct ConversationAdapterPackageInstallSource {
    pub kind: ConversationAdapterPackageInstallSourceKind,
    pub url: String,
    pub branch: Option<String>,
    pub path: Option<String>,
}

/// The version-neutral description of a package to install.
pub struct ConversationAdapterPackageInstallSpec {
    pub id: String,
    pub name: String,
    pub version: String,
    pub record_kind: ConversationAdapterPackageRecordKind,
    pub provider: Option<String>,
    pub adapter_id: Option<String>,
    pub description: Option<String>,
    pub homepage_url: Option<String>,
    pub repository_url: Option<String>,
    pub tags: Vec<String>,
    pub manifest_file: Option<String>,
    pub package_manifest_file: Option<String>,
    pub expected_content_hash: Option<String>,
    pub expected_package_hash: Option<String>,
    pub expected_artifact_hash: Option<String>,
    pub artifact_size: Option<u64>,
    pub source: ConversationAdapterPackageInstallSource,
}

/// A GitHub repository, branch and sub-directory to clone for an install.
pub struct GitHubInstallLocation {
    pub repo_url: String,
    pub branch: Option<String>,
    pub path: Option<String>,
}

impl GitHubInstallLocation {
    /// The package directory inside the clone: the sub-directory when there
    /// is one, else the clone itself.
    pub fn source_dir(&self, staging_dir: &str) -> (r: String)
        ensures
            r@ == (match self.path {
                Some(p) => join(staging_dir@, p@),
                None => staging_dir@,
            }),
    {
        match &self.path {
            Some(p) => join_str(staging_dir, p.as_str()),
            None => String::from_str(staging_dir),
        }
    }
}

/// Reads the GitHub repository, branch and sub-directory of an install source.
pub fn parse_github_install_source(source: &ConversationAdapterPackageInstallSource) -> (r:
    AppResult<GitHubInstallLocation>)
    ensures
        match r {
            Err(e) => github_source_error(
                source.kind == ConversationAdapterPackageInstallSourceKind::Github,
                source.url@,
                true,
            ) matches Some(x) && error_is(e, x),
            Ok(loc) => github_source_error(
                source.kind == ConversationAdapterPackageInstallSourceKind::Github,
                source.url@,
                true,
            ) is None && ({
                let parts = github_parts(github_rest(source.url@)->0);
                &&& loc.repo_url@ == github_repo_url(parts)
                &&& opt_view(loc.branch) == github_branch(
                    parts,
                    opt_view(source.branch),
                    opt_view(source.path),
                )
                &&& opt_view(loc.path) == github_path(
                    parts,
                    opt_view(source.branch),
                    opt_view(source.path),
                )
            }),
        },
{
    let loc = parse_github_url(
        source.kind == ConversationAdapterPackageInstallSourceKind::Github,
        source.url.as_str(),
        &source.branch,
        &source.path,
        true,
    )?;
    Ok(GitHubInstallLocation { repo_url: loc.repo_url, branch: loc.branch, path: loc.path })
}

impl ConversationAdapterPackageInstallSpec {
    /// The adapter id the spec installs: the declared one, else the package id.
    pub open spec fn spec_adapter_key(&self) -> Seq<char> {
        match self.adapter_id {
            Some(a) => a@,
            None => self.id@,
        }
    }

    /// The declared adapter manifest file, else `conversation-adapter.json`.
    pub open spec fn spec_manifest_file(&self) -> Seq<char> {
        match self.manifest_file {
            Some(f) => f@,
            None => "conversation-adapter.json"@,
        }
    }

    /// The declared package manifest file, else `conversation-adapter-package.json`.
    pub open spec fn spec_package_manifest_file(&self) -> Seq<char> {
        match self.package_manifest_file {
            Some(f) => f@,
            None => "conversation-adapter-package.json"@,
        }
    }

    pub fn package_id(&self) -> (r: &str)
        ensures
            r@ == self.id@,
    {
        self.id.as_str()
    }

    pub fn adapter_key(&self) -> (r: &str)
        ensures
            r@ == self.spec_adapter_key(),
    {
        match &self.adapter_id {
            Some(a) => a.as_str(),
            None => self.id.as_str(),
        }
    }

    pub fn manifest_file_name(&self) -> (r: AppResult<String>)
        ensures
            r is Ok <==> !unsafe_file_name(relative_file_name(self.spec_manifest_file())),
            r matches Ok(t) ==> t@ == relative_file_name(self.spec_manifest_file()),
            r matches Err(e) ==> e is Validation && e->Validation_0@
                == "manifest_file must be a file name: "@ + self.spec_manifest_file(),
    {
        match &self.manifest_file {
            Some(f) => clean_relative_file_name(f.as_str()),
            None => clean_relative_file_name("conversation-adapter.json"),
        }
    }

    pub fn package_manifest_file_name(&self) -> (r: AppResult<String>)
        ensures
            r is Ok <==> !unsafe_file_name(relative_file_name(self.spec_package_manifest_file())),
            r matches Ok(t) ==> t@ == relative_file_name(self.spec_package_manifest_file()),
            r matches Err(e) ==> e is Validation && e->Validation_0@
                == "manifest_file must be a file name: "@ + self.spec_package_manifest_file(),
    {
        match &self.package_manifest_file {
            Some(f) => clean_relative_file_name(f.as_str()),
            None => clean_relative_file_name("conversation-adapter-package.json"),
        }
    }
}

/// The trimmed text, or `None` when it is blank.
pub fn clean_non_empty_string(value: &str) -> (r: Option<String>)
    ensures
        opt_view(r) == clean_text(value@),
{
    crate::script_catalog::clean_non_empty_string(value)
}

/// Normalizes a relative path inside a repository, refusing unsafe pieces.
pub fn clean_catalog_subpath(value: &str) -> (r: Option<String>)
    ensures
        opt_view(r) == catalog_subpath(value@),
{
    crate::script_catalog::clean_catalog_subpath(value)
}

/// The first eight characters of a random UUID: eight lower-case
/// hexadecimal digits.
pub fn short_uuid() -> (r: String)
    ensures
        r@.len() == 8,
        forall|i: int| 0 <= i < 8 ==> crate::ids::is_lower_hex_digit(#[trigger] r@[i]),
{
    crate::script_catalog::short_uuid()
}

/// The managed directory of a package: `<adapter root>/packages/<package id>`.
pub open spec fn package_dir(adapter_root: Seq<char>, spec: &ConversationAdapterPackageInstallSpec) -> Seq<char> {
    join(join(adapter_root, "packages"@), spec.id@)
}

/// The managed directory of a package inside the conversation adapter root
/// (which the caller reads from the app settings).
pub fn conversation_adapter_package_dir(
    adapter_root: &str,
    spec: &ConversationAdapterPackageInstallSpec,
) -> (r: String)
    ensures
        r@ == package_dir(adapter_root@, spec),
{
    let packages = join_str(adapter_root, "packages");
    join_str(packages.as_str(), spec.package_id())
}

/// The immutable directory of the spec's version:
/// `<package dir>/versions/<version>`, once the version is valid SemVer.
pub fn conversation_adapter_package_version_dir(
    adapter_root: &str,
    spec: &ConversationAdapterPackageInstallSpec,
) -> (r: AppResult<String>)
    ensures
        r is Ok <==> semver_valid(trim(spec.version@)),
        r matches Ok(d) ==> d@ == join(
            join(package_dir(adapter_root@, spec), "versions"@),
            trim(spec.version@),
        ),
        r matches Err(e) ==> e is Validation && e->Validation_0@
            == "conversation adapter package version must be SemVer: "@ + semver_parse_error(
            trim(spec.version@),
        )->0,
{
    let dir = conversation_adapter_package_dir(adapter_root, spec);
    let versions = join_str(dir.as_str(), "versions");
    let version = validated_package_version(spec.version.as_str())?;
    Ok(join_str(versions.as_str(), version.as_str()))
}

/// A fresh directory for preparing a copy: `<package dir>/prepared/<8 random characters>`.
pub fn conversation_adapter_package_prepared_dir(
    adapter_root: &str,
    spec: &ConversationAdapterPackageInstallSpec,
) -> (r: String)
    ensures
        exists|id: Seq<char>|
            id.len() == 8 && r@ == join(join(package_dir(adapter_root@, spec), "prepared"@), id),
{
    let dir = conversation_adapter_package_dir(adapter_root, spec);
    let prepared = join_str(dir.as_str(), "prepared");
    let id = short_uuid();
    let r = join_str(prepared.as_str(), id.as_str());
    assert(id@.len() == 8 && r@ == join(join(package_dir(adapter_root@, spec), "prepared"@), id@));
    r
}

/// What a package validation reports about its package manifest.
pub struct ConversationAdapterPackageManifestSummary {
    pub package_id: String,
    pub name: String,
    pub version: String,
    pub record_kind: ConversationAdapterPackageRecordKind,
    /// The runtime protocol named by the manifest, as text.
    pub runtime_protocol: String,
}

/// What an adapter validation reports about its adapter manifest.
pub struct ExternalAdapterManifestSummary {
    pub id: String,
    pub version: String,
    pub capabilities: Vec<String>,
}

/// Result of validating an external adapter directory.
pub struct ExternalAdapterValidationResult {
    pub manifest: ExternalAdapterManifestSummary,
    pub content_hash: String,
}

/// Result of validating a package directory.
pub struct ConversationAdapterPackageValidationResult {
    pub manifest: ConversationAdapterPackageManifestSummary,
    pub adapter_validation: ExternalAdapterValidationResult,
    pub content_hash: String,
    pub manifest_path: String,
    pub adapter_manifest_path: String,
}

/// The first problem of an installed adapter manifest against the spec, as
/// the message of the validation error it raises.
pub open spec fn installed_manifest_problem(
    spec: &ConversationAdapterPackageInstallSpec,
    validation: &ExternalAdapterValidationResult,
) -> Option<Seq<char>> {
    if validation.manifest.id@ != spec.spec_adapter_key() {
        Some("installed adapter id "@ + validation.manifest.id@ + " does not match install adapter id "@ + spec.spec_adapter_key())
    } else if !lists(validation.manifest.capabilities@, "read_session"@) {
        Some("conversation adapter package "@ + spec.id@ + " must declare read_session"@)
    } else if spec.record_kind == ConversationAdapterPackageRecordKind::Web && !lists(
        validation.manifest.capabilities@,
        "web_records"@,
    ) {
        Some("web conversation adapter package "@ + spec.id@ + " must declare web_records"@)
    } else if (match spec.expected_content_hash {
        Some(h) => clean_text(h@) is Some && validation.content_hash@ != clean_text(h@)->0,
        None => false,
    }) {
        Some("conversation adapter "@ + spec.id@ + " content hash mismatch"@)
    } else {
        None
    }
}

/// An installed adapter must be the spec's adapter, declare `read_session`
/// (and `web_records` for web packages), and match any expected content hash.
pub fn validate_installed_manifest_for_spec(
    spec: &ConversationAdapterPackageInstallSpec,
    validation: &ExternalAdapterValidationResult,
) -> (r: AppResult<()>)
    ensures
        match installed_manifest_problem(spec, validation) {
            None => r is Ok,
            Some(m) => r matches Err(e) && e is Validation && e->Validation_0@ == m,
        },
{
    if !str_eq(validation.manifest.id.as_str(), spec.adapter_key()) {
        return Err(AppError::Validation(crate::error::message_pair(
            "installed adapter id ",
            validation.manifest.id.as_str(),
            " does not match install adapter id ",
            spec.adapter_key(),
        )));
    }
    if !list_contains(&validation.manifest.capabilities, "read_session") {
        return Err(AppError::Validation(crate::error::message_around(
            "conversation adapter package ",
            spec.id.as_str(),
            " must declare read_session",
        )));
    }
    if spec.record_kind == ConversationAdapterPackageRecordKind::Web && !list_contains(
        &validation.manifest.capabilities,
        "web_records",
    ) {
        return Err(AppError::Validation(crate::error::message_around(
            "web conversation adapter package ",
            spec.id.as_str(),
            " must declare web_records",
        )));
    }
    if let Some(h) = &spec.expected_content_hash {
        if let Some(expected) = clean_non_empty_string(h.as_str()) {
            if validation.content_hash != expected {
                return Err(AppError::Validation(crate::error::message_around(
                    "conversation adapter ",
                    spec.id.as_str(),
                    " content hash mismatch",
                )));
            }
        }
    }
    Ok(())
}

/// The first problem of an installed package against its spec, as the
/// message of the validation error it raises.
pub open spec fn installed_package_problem(
    spec: &ConversationAdapterPackageInstallSpec,
    validation: &ConversationAdapterPackageValidationResult,
) -> Option<Seq<char>> {
    if validation.manifest.package_id@ != spec.id@ {
        Some("installed package id "@ + validation.manifest.package_id@ + " does not match install package id "@ + spec.id@)
    } else if validation.manifest.version@ != spec.version@ {
        Some("installed package version "@ + validation.manifest.version@ + " does not match install package version "@ + spec.version@)
    } else if validation.manifest.record_kind != spec.record_kind {
        Some("installed package record kind does not match install spec: "@ + spec.id@)
    } else if validation.manifest.runtime_protocol@ != "stdio-ndjson-v1"@ {
        Some("conversation adapter package "@ + spec.id@ + " only supports stdio-ndjson-v1 in this release"@)
    } else if installed_manifest_problem(spec, &validation.adapter_validation) is Some {
        installed_manifest_problem(spec, &validation.adapter_validation)
    } else if (match spec.expected_package_hash {
        Some(h) => clean_text(h@) is Some && validation.content_hash@ != clean_text(h@)->0,
        None => false,
    }) {
        Some("conversation adapter package "@ + spec.id@ + " content hash mismatch"@)
    } else {
        None
    }
}

/// An installed package must be the spec's package id, version and record
/// kind, use the `stdio-ndjson-v1` runtime, carry a valid adapter, and match
/// any expected package hash.
pub fn validate_installed_package_for_spec(
    spec: &ConversationAdapterPackageInstallSpec,
    validation: &ConversationAdapterPackageValidationResult,
) -> (r: AppResult<()>)
    ensures
        match installed_package_problem(spec, validation) {
            None => r is Ok,
            Some(m) => r matches Err(e) && e is Validation && e->Validation_0@ == m,
        },
{
    if !str_eq(validation.manifest.package_id.as_str(), spec.package_id()) {
        return Err(AppError::Validation(crate::error::message_pair(
            "installed package id ",
            validation.manifest.package_id.as_str(),
            " does not match install package id ",
            spec.package_id(),
        )));
    }
    if validation.manifest.version != spec.version {
        return Err(AppError::Validation(crate::error::message_pair(
            "installed package version ",
            validation.manifest.version.as_str(),
            " does not match install package version ",
            spec.version.as_str(),
        )));
    }
    if validation.manifest.record_kind != spec.record_kind {
        return Err(AppError::Validation(message_with(
            "installed package record kind does not match install spec: ",
            spec.id.as_str(),
        )));
    }
    if !str_eq(validation.manifest.runtime_protocol.as_str(), "stdio-ndjson-v1") {
        return Err(AppError::Validation(crate::error::message_around(
            "conversation adapter package ",
            spec.id.as_str(),
            " only supports stdio-ndjson-v1 in this release",
        )));
    }
    validate_installed_manifest_for_spec(spec, &validation.adapter_validation)?;
    if let Some(h) = &spec.expected_package_hash {
        if let Some(expected) = clean_non_empty_string(h.as_str()) {
            if validation.content_hash != expected {
                return Err(AppError::Validation(crate::error::message_around(
                    "conversation adapter package ",
                    spec.id.as_str(),
                    " content hash mismatch",
                )));
            }
        }
    }
    Ok(())
}

/// The record kept for a package whose first install failed, so that the
/// failure is visible: not ready, manifest invalid, with the error message.
/// The caller saves it to the store.
pub fn persist_failed_conversation_adapter_package(
    spec: &ConversationAdapterPackageInstallSpec,
    current_dir: &str,
    error: &str,
) -> (r: AppResult<ConversationAdapterPackage>)
    ensures
        r is Ok <==> (!unsafe_file_name(relative_file_name(spec.spec_package_manifest_file()))
            && !unsafe_file_name(relative_file_name(spec.spec_manifest_file()))),
        r matches Err(e) ==> e is Validation && e->Validation_0@ == "manifest_file must be a file name: "@
            + if unsafe_file_name(relative_file_name(spec.spec_package_manifest_file())) {
            spec.spec_package_manifest_file()
        } else {
            spec.spec_manifest_file()
        },
        r matches Ok(p) ==> {
            &&& p.package_id == spec.id
            &&& p.adapter_id@ == spec.spec_adapter_key()
            &&& p.name == spec.name
            &&& p.version == spec.version
            &&& p.record_kind == spec.record_kind
            &&& p.install_dir@ == current_dir@
            &&& p.manifest_path@ == join(
                current_dir@,
                relative_file_name(spec.spec_package_manifest_file()),
            )
            &&& p.adapter_manifest_path@ == join(
                current_dir@,
                relative_file_name(spec.spec_manifest_file()),
            )
            &&& p.runtime_protocol@ == "stdio-ndjson-v1"@
            &&& !p.runtime_ready
            &&& p.origin == ConversationAdapterPackageOrigin::ManagedRelease
            &&& p.source_url == Some(spec.source.url)
            &&& p.git_ref == spec.source.branch
            &&& p.git_commit is None
            &&& p.catalog_url is None
            &&& p.update_policy == ConversationPackageUpdatePolicy::Manual
            &&& p.latest_version == Some(spec.version)
            &&& p.last_checked_at is Some
            &&& p.runtime_gate_status == ConversationAdapterRuntimeGateStatus::ManifestInvalid
            &&& p.runtime_validated_at == p.last_checked_at
            &&& p.installed_content_hash is None
            &&& opt_view(p.trusted_package_hash) == match spec.expected_package_hash {
                Some(h) => clean_text(h@),
                None => None,
            }
            &&& opt_view(p.error_message) == Some(error@)
            &&& p.created_at == p.updated_at
            &&& p.last_checked_at == Some(p.created_at)
        },
{
    let now = now_rfc3339();
    let package_manifest = spec.package_manifest_file_name()?;
    let adapter_manifest = spec.manifest_file_name()?;
    Ok(ConversationAdapterPackage {
        package_id: spec.id.clone(),
        adapter_id: String::from_str(spec.adapter_key()),
        name: spec.name.clone(),
        version: spec.version.clone(),
        record_kind: spec.record_kind,
        install_dir: String::from_str(current_dir),
        manifest_path: join_str(current_dir, package_manifest.as_str()),
        adapter_manifest_path: join_str(current_dir, adapter_manifest.as_str()),
        runtime_protocol: String::from_str("stdio-ndjson-v1"),
        runtime_ready: false,
        origin: ConversationAdapterPackageOrigin::ManagedRelease,
        source_url: Some(spec.source.url.clone()),
        git_ref: clone_opt(&spec.source.branch),
        git_commit: None,
        catalog_url: None,
        update_policy: ConversationPackageUpdatePolicy::Manual,
        latest_version: Some(spec.version.clone()),
        last_checked_at: Some(now.clone()),
        runtime_gate_status: ConversationAdapterRuntimeGateStatus::ManifestInvalid,
        runtime_validated_at: Some(now.clone()),
        installed_content_hash: None,
        trusted_package_hash: match &spec.expected_package_hash {
            Some(h) => clean_non_empty_string(h.as_str()),
            None => None,
        },
        error_message: Some(String::from_str(error)),
        created_at: now.clone(),
        updated_at: now,
    })
}

/// The records of a package that installed and validated: the package,
/// active and ready at `version_dir` as a managed release, and its version
/// entry. The trusted hash is the spec's expected package hash when it
/// gives one, else the installed content hash; a reinstall keeps the first
/// creation time.
pub fn installed_package_records(
    spec: &ConversationAdapterPackageInstallSpec,
    adapter_id: &str,
    validation: &ConversationAdapterPackageValidationResult,
    version_dir: &str,
    catalog_url: Option<&str>,
    previous_created_at: Option<&str>,
) -> (r: (ConversationAdapterPackage, ConversationAdapterPackageVersion))
    ensures
        r.0.package_id == spec.id,
        r.0.adapter_id@ == adapter_id@,
        r.0.name == validation.manifest.name,
        r.0.version == validation.manifest.version,
        r.0.record_kind == spec.record_kind,
        r.0.install_dir@ == version_dir@,
        r.0.manifest_path == validation.manifest_path,
        r.0.adapter_manifest_path == validation.adapter_manifest_path,
        r.0.runtime_protocol == validation.manifest.runtime_protocol,
        r.0.runtime_ready,
        r.0.origin == ConversationAdapterPackageOrigin::ManagedRelease,
        r.0.source_url == Some(spec.source.url),
        r.0.git_ref == spec.source.branch,
        r.0.git_commit is None,
        opt_view(r.0.catalog_url) == match catalog_url {
            Some(u) => clean_text(u@),
            None => None,
        },
        r.0.update_policy == ConversationPackageUpdatePolicy::Manual,
        r.0.latest_version == Some(spec.version),
        r.0.last_checked_at == Some(r.0.updated_at),
        r.0.runtime_gate_status == ConversationAdapterRuntimeGateStatus::Ready,
        r.0.runtime_validated_at == Some(r.0.updated_at),
        r.0.installed_content_hash == Some(validation.content_hash),
        opt_view(r.0.trusted_package_hash) == Some(
            match spec.expected_package_hash {
                Some(h) => match clean_text(h@) {
                    Some(t) => t,
                    None => validation.content_hash@,
                },
                None => validation.content_hash@,
            },
        ),
        r.0.error_message is None,
        r.0.created_at@ == match previous_created_at {
            Some(c) => c@,
            None => r.0.updated_at@,
        },
        r.1.package_id == r.0.package_id,
        r.1.version == r.0.version,
        r.1.install_dir@ == r.0.install_dir@,
        opt_view(r.1.artifact_hash) == match spec.expected_artifact_hash {
            Some(h) => clean_text(h@),
            None => None,
        },
        r.1.content_hash == validation.content_hash,
        r.1.runtime_gate_status == ConversationAdapterRuntimeGateStatus::Ready,
        r.1.installed_at == r.0.updated_at,
{
    let now = now_rfc3339();
    let trusted = match &spec.expected_package_hash {
        Some(h) => match clean_non_empty_string(h.as_str()) {
            Some(t) => t,
            None => validation.content_hash.clone(),
        },
        None => validation.content_hash.clone(),
    };
    let created_at = match previous_created_at {
        Some(c) => String::from_str(c),
        None => now.clone(),
    };
    let package = ConversationAdapterPackage {
        package_id: spec.id.clone(),
        adapter_id: String::from_str(adapter_id),
        name: validation.manifest.name.clone(),
        version: validation.manifest.version.clone(),
        record_kind: spec.record_kind,
        install_dir: String::from_str(version_dir),
        manifest_path: validation.manifest_path.clone(),
        adapter_manifest_path: validation.adapter_manifest_path.clone(),
        runtime_protocol: validation.manifest.runtime_protocol.clone(),
        runtime_ready: true,
        origin: ConversationAdapterPackageOrigin::ManagedRelease,
        source_url: Some(spec.source.url.clone()),
        git_ref: clone_opt(&spec.source.branch),
        git_commit: None,
        catalog_url: match catalog_url {
            Some(u) => clean_non_empty_string(u),
            None => None,
        },
        update_policy: ConversationPackageUpdatePolicy::Manual,
        latest_version: Some(spec.version.clone()),
        last_checked_at: Some(now.clone()),
        runtime_gate_status: ConversationAdapterRuntimeGateStatus::Ready,
        runtime_validated_at: Some(now.clone()),
        installed_content_hash: Some(validation.content_hash.clone()),
        trusted_package_hash: Some(trusted),
        error_message: None,
        created_at,
        updated_at: now.clone(),
    };
    let version = ConversationAdapterPackageVersion {
        package_id: spec.id.clone(),
        version: validation.manifest.version.clone(),
        install_dir: String::from_str(version_dir),
        artifact_hash: match &spec.expected_artifact_hash {
            Some(h) => clean_non_empty_string(h.as_str()),
            None => None,
        },
        content_hash: validation.content_hash.clone(),
        runtime_gate_status: ConversationAdapterRuntimeGateStatus::Ready,
        installed_at: now,
    };
    (package, version)
}

} // verus!
