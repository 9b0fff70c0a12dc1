//! Records of conversation adapters and their packages, as the store keeps them.

use vstd::prelude::*;

verus! {

/// Where an installed conversation adapter package came from.
#[derive(Debug, Clone, Copy, PartialEq, Eq, Structural)]
pub enum ConversationAdapterPackageOrigin {
    BuiltIn,
    ManagedRelease,
    LocalDirectory,
    GitRef,
    LegacyExternal,
    DevOverride,
}

/// Outcome of the last runtime validation of an installed package.
#[derive(Debug, Clone, Copy, PartialEq, Eq, Structural)]
pub enum ConversationAdapterRuntimeGateStatus {
    Ready,
    RuntimeMissing,
    HashMismatch,
    ManifestInvalid,
    CoreIncompatible,
}

/// The kind of records a package reads.
#[derive(Debug, Clone, Copy, PartialEq, Eq, Structural)]
pub enum ConversationAdapterPackageRecordKind {
    Session,
    Web,
}

/// How a package follows catalog releases.
#[derive(Debug, Clone, Copy, PartialEq, Eq, Structural)]
pub enum ConversationPackageUpdatePolicy {
    Manual,
    PinExact,
    FollowBeta,
}

/// Trust state of a registered adapter.
#[derive(Debug, Clone, Copy, PartialEq, Eq, Structural)]
pub enum ConversationAdapterTrustState {
    BuiltIn,
    Trusted,
}

/// Conversation record family used by sync, search and export.
#[derive(Debug, Clone, Copy, PartialEq, Eq, Structural)]
pub enum ConversationRecordKind {
    Session,
    Web,
}

/// A registered conversation adapter (the fields the application layer reads).
pub struct ConversationAdapter {
    pub id: String,
    pub name: String,
    pub version: String,
    pub enabled: bool,
    pub manifest_path: Option<String>,
    pub trusted_hash: Option<String>,
    pub trust_state: ConversationAdapterTrustState,
    pub capabilities: Vec<String>,
    pub card_contract_version: Option<u32>,
}

/// An installed conversation adapter package.
pub struct ConversationAdapterPackage {
    pub package_id: String,
    pub adapter_id: String,
    pub name: String,
    pub version: String,
    pub record_kind: ConversationAdapterPackageRecordKind,
    pub install_dir: String,
    pub manifest_path: String,
    pub adapter_manifest_path: String,
    pub runtime_protocol: String,
    pub runtime_ready: bool,
    pub origin: ConversationAdapterPackageOrigin,
    pub source_url: Option<String>,
    pub git_ref: Option<String>,
    pub git_commit: Option<String>,
    pub catalog_url: Option<String>,
    pub update_policy: ConversationPackageUpdatePolicy,
    pub latest_version: Option<String>,
    pub last_checked_at: Option<String>,
    pub runtime_gate_status: ConversationAdapterRuntimeGateStatus,
    pub runtime_validated_at: Option<String>,
    pub installed_content_hash: Option<String>,
    pub trusted_package_hash: Option<String>,
    pub error_message: Option<String>,
    pub created_at: String,
    pub updated_at: String,
}

/// One installed, immutable version directory of a managed package.
pub struct ConversationAdapterPackageVersion {
    pub package_id: String,
    pub version: String,
    pub install_dir: String,
    pub artifact_hash: Option<String>,
    pub content_hash: String,
    pub runtime_gate_status: ConversationAdapterRuntimeGateStatus,
    pub installed_at: String,
}

/// A configured conversation source (the fields the application layer reads).
pub struct ConversationSource {
    pub id: String,
    pub adapter_id: String,
    pub name: String,
    pub enabled: bool,
}

/// A package change the application can be asked to perform.
#[derive(Debug, Clone, Copy, PartialEq, Eq, Structural)]
pub enum ConversationAdapterPackageChangeAction {
    Register,
    Install,
    Update,
    Uninstall,
    Unregister,
    SwitchVersion,
    Rollback,
    DeleteVersion,
    Revalidate,
}

/// How much a package change writes.
#[derive(Debug, Clone, Copy, PartialEq, Eq, Structural)]
pub enum ConversationAdapterPackageChangeRisk {
    ReadOnly,
    Write,
    HighRiskWrite,
}

/// A copy of an optional text.
pub fn clone_opt(o: &Option<String>) -> (r: Option<String>)
    ensures
        r == *o,
{
    match o {
        Some(s) => Some(s.clone()),
        None => None,
    }
}

/// A copy of a list of texts.
pub fn clone_strings(v: &Vec<String>) -> (r: Vec<String>)
    ensures
        r@ == v@,
{
    let mut r: Vec<String> = Vec::new();
    let mut i: usize = 0;
    while i < v.len()
        invariant
            i <= v.len(),
            r@ == v@.take(i as int),
        decreases v.len() - i,
    {
        r.push(v[i].clone());
        i = i + 1;
        assert(r@ =~= v@.take(i as int));
    }
    assert(r@ =~= v@);
    r
}

impl ConversationAdapter {
    /// Two adapter records hold the same values.
    pub open spec fn same_as(&self, other: &ConversationAdapter) -> bool {
        &&& self.id == other.id
        &&& self.name == other.name
        &&& self.version == other.version
        &&& self.enabled == other.enabled
        &&& self.manifest_path == other.manifest_path
        &&& self.trusted_hash == other.trusted_hash
        &&& self.trust_state == other.trust_state
        &&& self.capabilities@ == other.capabilities@
        &&& self.card_contract_version == other.card_contract_version
    }

    /// A field-for-field copy.
    pub fn duplicate(&self) -> (r: ConversationAdapter)
        ensures
            r.same_as(self),
    {
        ConversationAdapter {
            id: self.id.clone(),
            name: self.name.clone(),
            version: self.version.clone(),
            enabled: self.enabled,
            manifest_path: clone_opt(&self.manifest_path),
            trusted_hash: clone_opt(&self.trusted_hash),
            trust_state: self.trust_state,
            capabilities: clone_strings(&self.capabilities),
            card_contract_version: self.card_contract_version,
        }
    }
}

impl ConversationAdapterPackage {
    /// A field-for-field copy.
    pub fn duplicate(&self) -> (r: ConversationAdapterPackage)
        ensures
            r == *self,
    {
        ConversationAdapterPackage {
            package_id: self.package_id.clone(),
            adapter_id: self.adapter_id.clone(),
            name: self.name.clone(),
            version: self.version.clone(),
            record_kind: self.record_kind,
            install_dir: self.install_dir.clone(),
            manifest_path: self.manifest_path.clone(),
            adapter_manifest_path: self.adapter_manifest_path.clone(),
            runtime_protocol: self.runtime_protocol.clone(),
            runtime_ready: self.runtime_ready,
            origin: self.origin,
            source_url: clone_opt(&self.source_url),
            git_ref: clone_opt(&self.git_ref),
            git_commit: clone_opt(&self.git_commit),
            catalog_url: clone_opt(&self.catalog_url),
            update_policy: self.update_policy,
            latest_version: clone_opt(&self.latest_version),
            last_checked_at: clone_opt(&self.last_checked_at),
            runtime_gate_status: self.runtime_gate_status,
            runtime_validated_at: clone_opt(&self.runtime_validated_at),
            installed_content_hash: clone_opt(&self.installed_content_hash),
            trusted_package_hash: clone_opt(&self.trusted_package_hash),
            error_message: clone_opt(&self.error_message),
            created_at: self.created_at.clone(),
            updated_at: self.updated_at.clone(),
        }
    }
}

impl ConversationAdapterPackageVersion {
    /// A field-for-field copy.
    pub fn duplicate(&self) -> (r: ConversationAdapterPackageVersion)
        ensures
            r == *self,
    {
        ConversationAdapterPackageVersion {
            package_id: self.package_id.clone(),
            version: self.version.clone(),
            install_dir: self.install_dir.clone(),
            artifact_hash: clone_opt(&self.artifact_hash),
            content_hash: self.content_hash.clone(),
            runtime_gate_status: self.runtime_gate_status,
            installed_at: self.installed_at.clone(),
        }
    }
}

} // verus!
