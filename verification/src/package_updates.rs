//! Which catalog release a managed package could update to, and which
//! release an install by version picks.

use vstd::prelude::*;
use crate::catalog_v2::{
    newest_first, release_is_core_compatible, semver_is_newer, sort_releases_newest_first,
    ConversationAdapterCatalogRelease, ConversationAdapterReleaseChannel,
};
use crate::error::{AppError, AppResult, message_with};
use crate::models::{
    clone_opt, ConversationAdapter, ConversationAdapterPackage, ConversationAdapterPackageOrigin, ConversationAdapterPackageRecordKind,
    ConversationPackageUpdatePolicy,
};
use crate::script_catalog::{
    package_status, str_eq, ConversationScriptCatalogItem, ConversationScriptCatalogSource, ConversationScriptCatalogSourceKind,
    ConversationScriptRecordKind,
};
use crate::text::{trim, trim_str};
use crate::versions::{
    parse_semver, semver_greater, semver_parse_error, semver_req_matches, semver_req_valid, semver_valid,
};

verus! {

/// A copy of a cached release.
pub fn copy_release(r: &ConversationAdapterCatalogRelease) -> (c: ConversationAdapterCatalogRelease)
    ensures
        c == *r,
{
    ConversationAdapterCatalogRelease {
        catalog_url: r.catalog_url.clone(),
        package_id: r.package_id.clone(),
        adapter_id: r.adapter_id.clone(),
        name: r.name.clone(),
        publisher: r.publisher.clone(),
        version: r.version.clone(),
        channel: r.channel,
        released_at: clone_opt(&r.released_at),
        core_compatibility: r.core_compatibility.clone(),
        artifact_url: r.artifact_url.clone(),
        artifact_size: r.artifact_size,
        artifact_sha256: r.artifact_sha256.clone(),
        changelog_markdown: r.changelog_markdown.clone(),
        breaking_change: r.breaking_change,
        runtime_protocol: r.runtime_protocol.clone(),
        record_kind: r.record_kind,
        package_manifest_file: r.package_manifest_file.clone(),
        adapter_manifest_file: r.adapter_manifest_file.clone(),
        adapter_manifest_json: clone_opt(&r.adapter_manifest_json),
        source_json: clone_opt(&r.source_json),
        etag: clone_opt(&r.etag),
        fetched_at: r.fetched_at.clone(),
    }
}

/// The update state of one package.
pub struct ConversationAdapterPackageUpdateStatus {
    pub package_id: String,
    pub current_version: String,
    pub latest_compatible_release: Option<ConversationAdapterCatalogRelease>,
    pub update_available: bool,
}

/// Packages from a local directory, a Git ref or a developer override do
/// not follow the catalog.
pub open spec fn follows_catalog(origin: ConversationAdapterPackageOrigin) -> bool {
    !(origin == ConversationAdapterPackageOrigin::LocalDirectory || origin == ConversationAdapterPackageOrigin::GitRef
        || origin == ConversationAdapterPackageOrigin::DevOverride)
}

/// A release the package may update to: its own, compatible with this
/// Core, and stable unless the package follows beta releases.
pub open spec fn update_candidate(r: ConversationAdapterCatalogRelease, p: ConversationAdapterPackage, core_version: Seq<char>) -> bool {
    &&& r.package_id@ == p.package_id@
    &&& semver_req_valid(r.core_compatibility@) && semver_valid(core_version) && semver_req_matches(
        r.core_compatibility@,
        core_version,
    )
    &&& (p.update_policy == ConversationPackageUpdatePolicy::FollowBeta || r.channel
        == ConversationAdapterReleaseChannel::Stable)
}

/// The update candidates among the first `n` releases, in order.
pub open spec fn update_candidates(
    rs: Seq<ConversationAdapterCatalogRelease>,
    p: ConversationAdapterPackage,
    core_version: Seq<char>,
    n: int,
) -> Seq<ConversationAdapterCatalogRelease>
    decreases n,
{
    if n <= 0 {
        Seq::empty()
    } else {
        let prev = update_candidates(rs, p, core_version, n - 1);
        if update_candidate(rs[n - 1], p, core_version) {
            prev.push(rs[n - 1])
        } else {
            prev
        }
    }
}

/// `latest` is the first of the candidates listed newest first.
pub open spec fn is_latest_candidate(
    latest: Option<ConversationAdapterCatalogRelease>,
    candidates: Seq<ConversationAdapterCatalogRelease>,
) -> bool {
    exists|sorted: Seq<ConversationAdapterCatalogRelease>|
        #![trigger newest_first(sorted)]
        sorted.to_multiset() == candidates.to_multiset() && newest_first(sorted) && latest == if sorted.len() > 0 {
            Some(sorted[0])
        } else {
            None
        }
}

/// `latest` is one of the candidates and none with another version is
/// newer; there is no latest exactly when there is no candidate.
pub open spec fn is_newest_candidate(
    latest: Option<ConversationAdapterCatalogRelease>,
    candidates: Seq<ConversationAdapterCatalogRelease>,
) -> bool {
    match latest {
        None => candidates.len() == 0,
        Some(l) => {
            &&& candidates.contains(l)
            &&& forall|c: ConversationAdapterCatalogRelease|
                #[trigger] candidates.contains(c) && c.version@ != l.version@ ==> !crate::catalog_v2::release_newer(c.version@, l.version@)
        },
    }
}

/// `s` is the update status of a package that follows the catalog: pinned
/// packages get no release and no update; the others get the newest of
/// their candidate releases, with an update when it is newer than the
/// installed version.
pub open spec fn is_update_status(
    s: ConversationAdapterPackageUpdateStatus,
    package: ConversationAdapterPackage,
    releases: Seq<ConversationAdapterCatalogRelease>,
    core_version: Seq<char>,
) -> bool {
    &&& s.package_id == package.package_id
    &&& s.current_version == package.version
    &&& package.update_policy == ConversationPackageUpdatePolicy::PinExact ==> s.latest_compatible_release is None
        && !s.update_available
    &&& package.update_policy != ConversationPackageUpdatePolicy::PinExact ==> {
        &&& is_latest_candidate(
            s.latest_compatible_release,
            update_candidates(releases, package, core_version, releases.len() as int),
        )
        &&& is_newest_candidate(
            s.latest_compatible_release,
            update_candidates(releases, package, core_version, releases.len() as int),
        )
        &&& s.update_available == (s.latest_compatible_release matches Some(l) && semver_valid(l.version@)
            && semver_valid(package.version@) && semver_greater(l.version@, package.version@))
    }
}

/// The update check of a package against the cached releases: nothing for
/// a package that does not follow the catalog; no release for a pinned
/// one; else the newest compatible release, and whether it is newer than
/// the installed version. The caller records the release's version as the
/// package's latest version and the check time.
pub fn package_update_status(
    package: &ConversationAdapterPackage,
    releases: &[ConversationAdapterCatalogRelease],
    core_version: &str,
) -> (r: Option<ConversationAdapterPackageUpdateStatus>)
    ensures
        !follows_catalog(package.origin) ==> r is None,
        follows_catalog(package.origin) ==> (r matches Some(s) && is_update_status(s, *package, releases@, core_version@)),
        r is None <==> (package.origin == ConversationAdapterPackageOrigin::LocalDirectory || package.origin
            == ConversationAdapterPackageOrigin::GitRef || package.origin == ConversationAdapterPackageOrigin::DevOverride),
{
    match package.origin {
        ConversationAdapterPackageOrigin::LocalDirectory
        | ConversationAdapterPackageOrigin::GitRef
        | ConversationAdapterPackageOrigin::DevOverride => {
            return None;
        },
        _ => {},
    }
    if package.update_policy == ConversationPackageUpdatePolicy::PinExact {
        return Some(ConversationAdapterPackageUpdateStatus {
            package_id: package.package_id.clone(),
            current_version: package.version.clone(),
            latest_compatible_release: None,
            update_available: false,
        });
    }
    let ghost rs = releases@;
    let mut compatible: Vec<ConversationAdapterCatalogRelease> = Vec::new();
    let mut i: usize = 0;
    while i < releases.len()
        invariant
            i <= rs.len(),
            rs == releases@,
            compatible@ == update_candidates(rs, *package, core_version@, i as int),
        decreases releases.len() - i,
    {
        let r = &releases[i];
        let take = str_eq(r.package_id.as_str(), package.package_id.as_str()) && release_is_core_compatible(
            r,
            core_version,
        ) && (package.update_policy == ConversationPackageUpdatePolicy::FollowBeta || r.channel
            == ConversationAdapterReleaseChannel::Stable);
        if take {
            compatible.push(copy_release(r));
        }
        i = i + 1;
    }
    let ghost candidates = compatible@;
    sort_releases_newest_first(&mut compatible);
    let latest = if compatible.len() > 0 {
        Some(copy_release(&compatible[0]))
    } else {
        None
    };
    assert(is_latest_candidate(latest, candidates)) by {
        assert(newest_first(compatible@));
    }
    proof {
        broadcast use vstd::seq_lib::group_to_multiset_ensures;
        let sorted = compatible@;
        assert(sorted.to_multiset() == candidates.to_multiset());
        if latest is None {
            assert(sorted.len() == 0);
            assert(sorted.to_multiset().len() == 0);
            assert(candidates.to_multiset().len() == candidates.len());
        } else {
            let l = latest->0;
            {
                assert(l == sorted[0]);
                assert(sorted.contains(l));
                assert(sorted.to_multiset().count(l) > 0);
                assert(candidates.contains(l));
                assert forall|c: ConversationAdapterCatalogRelease|
                    #[trigger] candidates.contains(c) && c.version@ != l.version@ implies !crate::catalog_v2::release_newer(
                    c.version@,
                    l.version@,
                ) by {
                    assert(candidates.to_multiset().count(c) > 0);
                    assert(sorted.contains(c));
                    let j = choose|j: int| 0 <= j < sorted.len() && sorted[j] == c;
                    if j > 0 {
                        assert(!crate::catalog_v2::release_newer(sorted[j].version@, sorted[0].version@));
                    }
                }
            }
        }
    }
    let update_available = match &latest {
        Some(l) => semver_is_newer(l.version.as_str(), package.version.as_str()),
        None => false,
    };
    Some(ConversationAdapterPackageUpdateStatus {
        package_id: package.package_id.clone(),
        current_version: package.version.clone(),
        latest_compatible_release: latest,
        update_available,
    })
}

/// The version an install by release asks for, trimmed, or why it is
/// refused.
pub open spec fn requested_release_version(version: Option<Seq<char>>) -> Result<Seq<char>, Seq<char>> {
    match version {
        Some(v) if trim(v).len() > 0 => if semver_valid(trim(v)) {
            Ok(trim(v))
        } else {
            Err("conversation adapter package release version must be SemVer: "@ + semver_parse_error(trim(v))->0)
        },
        _ => Err("conversation adapter package release version is required"@),
    }
}

/// The index of the first release with exactly this version.
pub open spec fn release_with_version(rs: Seq<ConversationAdapterCatalogRelease>, version: Seq<char>, n: int) -> Option<int>
    decreases n,
{
    if n <= 0 {
        None
    } else {
        match release_with_version(rs, version, n - 1) {
            Some(j) => Some(j),
            None => if rs[n - 1].version@ == version {
                Some(n - 1)
            } else {
                None
            },
        }
    }
}

/// The catalog item that installs a release from its artifact.
pub open spec fn release_item_matches(item: ConversationScriptCatalogItem, r: ConversationAdapterCatalogRelease) -> bool {
    &&& item.id == r.package_id
    &&& item.name == r.name
    &&& item.version == r.version
    &&& item.record_kind.package_kind() == r.record_kind
    &&& item.provider == Some(r.publisher)
    &&& item.adapter_id == Some(r.adapter_id)
    &&& item.description is None
    &&& item.homepage_url is None
    &&& item.repository_url is None
    &&& item.tags@.len() == 0
    &&& item.manifest_file == Some(r.adapter_manifest_file)
    &&& item.package_manifest_file == Some(r.package_manifest_file)
    &&& item.expected_content_hash is None
    &&& item.expected_package_hash is None
    &&& item.expected_artifact_hash == Some(r.artifact_sha256)
    &&& item.artifact_size == match r.artifact_size {
        Some(s) => Some(#[verifier::truncate] (s as u64)),
        None => None,
    }
    &&& item.source.kind == ConversationScriptCatalogSourceKind::ArtifactZip
    &&& item.source.url == r.artifact_url
    &&& item.source.branch is None
    &&& item.source.path is None
}

/// The release an install by version picks among the listed releases, as
/// a catalog item installing its artifact: the version must be given and
/// be SemVer, a release of it must be listed, and it must accept this Core.
pub fn release_install_item(
    package_id: &str,
    version: Option<&str>,
    releases: &[ConversationAdapterCatalogRelease],
    core_version: &str,
) -> (r: AppResult<ConversationScriptCatalogItem>)
    ensures
        match requested_release_version(
            match version {
                Some(v) => Some(v@),
                None => None,
            },
        ) {
            Err(m) => r matches Err(e) && e is Other && e->Other_0@ == m,
            Ok(v) => match release_with_version(releases@, v, releases@.len() as int) {
                None => r matches Err(e) && e is Other && e->Other_0@ == "conversation adapter package release not found: "@
                    + package_id@ + "@"@ + v,
                Some(k) => {
                    let rel = releases@[k];
                    if semver_req_valid(rel.core_compatibility@) && semver_valid(core_version@) && semver_req_matches(
                        rel.core_compatibility@,
                        core_version@,
                    ) {
                        r matches Ok(item) && release_item_matches(item, rel)
                    } else {
                        r matches Err(e) && e is Other && e->Other_0@
                            == "conversation adapter package release is not compatible with this Core: "@ + rel.package_id@
                            + "@"@ + rel.version@ + " ("@ + rel.core_compatibility@ + ")"@
                    }
                },
            },
        },
{
    let v = match version {
        Some(v) => trim_str(v),
        None => String::new(),
    };
    if crate::text::chars_of(v.as_str()).len() == 0 {
        return Err(AppError::Other(String::from_str("conversation adapter package release version is required")));
    }
    if let Err(m) = parse_semver(v.as_str()) {
        return Err(AppError::Other(message_with(
            "conversation adapter package release version must be SemVer: ",
            m.as_str(),
        )));
    }
    let ghost rs = releases@;
    let mut i: usize = 0;
    while i < releases.len()
        invariant
            i <= rs.len(),
            rs == releases@,
            release_with_version(rs, v@, i as int) is None,
        ensures
            i <= rs.len(),
            release_with_version(rs, v@, i as int) is None,
            i < rs.len() ==> rs[i as int].version@ == v@,
        decreases releases.len() - i,
    {
        if str_eq(releases[i].version.as_str(), v.as_str()) {
            break;
        }
        i = i + 1;
    }
    proof {
        lemma_release_with_version_stays(rs, v@, i as int, rs.len() as int);
    }
    if i == releases.len() {
        let mut m = message_with("conversation adapter package release not found: ", package_id);
        m.append("@");
        m.append(v.as_str());
        return Err(AppError::Other(m));
    }
    let rel = &releases[i];
    if !release_is_core_compatible(rel, core_version) {
        let mut m = message_with(
            "conversation adapter package release is not compatible with this Core: ",
            rel.package_id.as_str(),
        );
        m.append("@");
        m.append(rel.version.as_str());
        m.append(" (");
        m.append(rel.core_compatibility.as_str());
        m.append(")");
        return Err(AppError::Other(m));
    }
    let record_kind = match rel.record_kind {
        ConversationAdapterPackageRecordKind::Session => ConversationScriptRecordKind::Session,
        ConversationAdapterPackageRecordKind::Web => ConversationScriptRecordKind::Web,
    };
    let artifact_size: Option<u64> = match rel.artifact_size {
        Some(s) => Some(#[verifier::truncate] (s as u64)),
        None => None,
    };
    Ok(ConversationScriptCatalogItem {
        id: rel.package_id.clone(),
        name: rel.name.clone(),
        version: rel.version.clone(),
        record_kind,
        provider: Some(rel.publisher.clone()),
        adapter_id: Some(rel.adapter_id.clone()),
        description: None,
        homepage_url: None,
        repository_url: None,
        tags: Vec::new(),
        manifest_file: Some(rel.adapter_manifest_file.clone()),
        package_manifest_file: Some(rel.package_manifest_file.clone()),
        expected_content_hash: None,
        expected_package_hash: None,
        expected_artifact_hash: Some(rel.artifact_sha256.clone()),
        artifact_size,
        source: ConversationScriptCatalogSource {
            kind: ConversationScriptCatalogSourceKind::ArtifactZip,
            url: rel.artifact_url.clone(),
            branch: None,
            path: None,
        },
    })
}

proof fn lemma_release_with_version_stays(rs: Seq<ConversationAdapterCatalogRelease>, v: Seq<char>, i: int, n: int)
    requires
        0 <= i <= n <= rs.len(),
        release_with_version(rs, v, i) is None,
        i < n ==> rs[i].version@ == v,
    ensures
        i < n ==> release_with_version(rs, v, n) == Some(i),
        i == n ==> release_with_version(rs, v, n) is None,
    decreases n - i,
{
    if i < n {
        if n > i + 1 {
            lemma_release_with_version_stays(rs, v, i, n - 1);
        }
    }
}

/// The packages among the first `n` that follow the catalog, in order.
pub open spec fn catalog_followers(packages: Seq<ConversationAdapterPackage>, n: int) -> Seq<ConversationAdapterPackage>
    decreases n,
{
    if n <= 0 {
        Seq::empty()
    } else if follows_catalog(packages[n - 1].origin) {
        catalog_followers(packages, n - 1).push(packages[n - 1])
    } else {
        catalog_followers(packages, n - 1)
    }
}

/// Exactly the managed, built-in and legacy packages follow the catalog;
/// packages registered from a local directory, a Git ref or a developer
/// override never get a catalog update status.
pub proof fn law_registered_packages_skip_update_check(origin: ConversationAdapterPackageOrigin)
    ensures
        follows_catalog(origin) <==> (origin == ConversationAdapterPackageOrigin::ManagedRelease || origin
            == ConversationAdapterPackageOrigin::BuiltIn || origin == ConversationAdapterPackageOrigin::LegacyExternal),
{
}

/// The packages an update check covers keep their stored order and none of
/// them was registered from a local directory, a Git ref or a developer
/// override; every managed, built-in or legacy package is among them.
pub proof fn law_update_check_covers_catalog_packages(packages: Seq<ConversationAdapterPackage>, n: int)
    requires
        0 <= n <= packages.len(),
    ensures
        forall|k: int|
            0 <= k < catalog_followers(packages, n).len() ==> {
                let o = (#[trigger] catalog_followers(packages, n)[k]).origin;
                &&& o != ConversationAdapterPackageOrigin::LocalDirectory
                &&& o != ConversationAdapterPackageOrigin::GitRef
                &&& o != ConversationAdapterPackageOrigin::DevOverride
            },
        forall|j: int|
            0 <= j < n && (packages[j].origin == ConversationAdapterPackageOrigin::ManagedRelease || packages[j].origin
                == ConversationAdapterPackageOrigin::BuiltIn || packages[j].origin
                == ConversationAdapterPackageOrigin::LegacyExternal) ==> #[trigger] catalog_followers(packages, n).contains(
                packages[j],
            ),
    decreases n,
{
    if n > 0 {
        law_update_check_covers_catalog_packages(packages, n - 1);
        let prev = catalog_followers(packages, n - 1);
        assert forall|j: int|
            0 <= j < n && (packages[j].origin == ConversationAdapterPackageOrigin::ManagedRelease || packages[j].origin
                == ConversationAdapterPackageOrigin::BuiltIn || packages[j].origin
                == ConversationAdapterPackageOrigin::LegacyExternal) implies #[trigger] catalog_followers(
                packages,
                n,
            ).contains(packages[j]) by {
            if j < n - 1 {
                assert(prev.contains(packages[j]));
                let w = choose|w: int| 0 <= w < prev.len() && prev[w] == packages[j];
                assert(catalog_followers(packages, n)[w] == packages[j]);
            } else {
                let f = catalog_followers(packages, n);
                assert(f[f.len() - 1] == packages[j]);
            }
        }
    }
}

/// An installed package listed as registered from a local directory, a Git
/// ref or a developer override in the catalog does not follow the catalog,
/// so the update check gives it no status.
pub proof fn law_registered_status_means_no_update_check(
    installed: bool,
    package: &ConversationAdapterPackage,
    update_available: bool,
    ahead_of_release: bool,
    runtime_ready: bool,
    adapter: Option<&ConversationAdapter>,
)
    ensures
        ({
            let s = package_status(installed, Some(package), update_available, ahead_of_release, runtime_ready, adapter);
            (s == "local_registered"@ || s == "git_registered"@ || s == "dev_override"@) ==> !follows_catalog(
                package.origin,
            )
        }),
{
    reveal_strlit("not_installed");
    reveal_strlit("uninstalled");
    reveal_strlit("runtime_missing");
    reveal_strlit("hash_mismatch");
    reveal_strlit("manifest_invalid");
    reveal_strlit("core_incompatible");
    reveal_strlit("verification_failed");
    reveal_strlit("local_registered");
    reveal_strlit("git_registered");
    reveal_strlit("dev_override");
    reveal_strlit("built_in");
    reveal_strlit("update_available");
    reveal_strlit("ahead_of_release");
    reveal_strlit("installed");
    assert("local_registered"@.len() == 16);
    assert("git_registered"@.len() == 14);
    assert("dev_override"@.len() == 12);
    assert("not_installed"@.len() == 13);
    assert("uninstalled"@.len() == 11);
    assert("runtime_missing"@.len() == 15);
    assert("hash_mismatch"@.len() == 13);
    assert("manifest_invalid"@.len() == 16);
    assert("core_incompatible"@.len() == 17);
    assert("verification_failed"@.len() == 19);
    assert("built_in"@.len() == 8);
    assert("update_available"@.len() == 16);
    assert("ahead_of_release"@.len() == 16);
    assert("installed"@.len() == 9);
    assert("local_registered"@[0] != "manifest_invalid"@[0]);
    assert("local_registered"@[0] != "update_available"@[0]);
    assert("local_registered"@[0] != "ahead_of_release"@[0]);
}

/// The record of a package after an update check at `now`: the latest
/// version found (none for a pinned package), the check time, and every
/// other field as it was.
pub open spec fn is_checked_record(
    r: ConversationAdapterPackage,
    package: ConversationAdapterPackage,
    s: ConversationAdapterPackageUpdateStatus,
    now: Seq<char>,
) -> bool {
    &&& r == ConversationAdapterPackage {
        latest_version: r.latest_version,
        last_checked_at: r.last_checked_at,
        ..package
    }
    &&& crate::text::opt_view(r.latest_version) == match s.latest_compatible_release {
        Some(l) => Some(l.version@),
        None => None,
    }
    &&& crate::text::opt_view(r.last_checked_at) == Some(now)
}

/// An update check over the stored packages at `now`: one status per
/// package that follows the catalog, in stored order, each with the record
/// to save for it.
pub fn package_update_statuses(
    packages: &Vec<ConversationAdapterPackage>,
    releases: &[ConversationAdapterCatalogRelease],
    core_version: &str,
    now: &str,
) -> (r: Vec<(ConversationAdapterPackageUpdateStatus, ConversationAdapterPackage)>)
    ensures
        ({
            let followers = catalog_followers(packages@, packages@.len() as int);
            &&& r@.len() == followers.len()
            &&& forall|k: int|
                0 <= k < r@.len() ==> {
                    &&& is_update_status((#[trigger] r@[k]).0, followers[k], releases@, core_version@)
                    &&& is_checked_record(r@[k].1, followers[k], r@[k].0, now@)
                }
        }),
{
    let mut out: Vec<(ConversationAdapterPackageUpdateStatus, ConversationAdapterPackage)> = Vec::new();
    let mut i: usize = 0;
    while i < packages.len()
        invariant
            i <= packages@.len(),
            out@.len() == catalog_followers(packages@, i as int).len(),
            forall|k: int|
                0 <= k < out@.len() ==> {
                    &&& is_update_status((#[trigger] out@[k]).0, catalog_followers(packages@, i as int)[k], releases@, core_version@)
                    &&& is_checked_record(out@[k].1, catalog_followers(packages@, i as int)[k], out@[k].0, now@)
                },
        decreases packages.len() - i,
    {
        let package = &packages[i];
        let ghost prev = catalog_followers(packages@, i as int);
        match package_update_status(package, releases, core_version) {
            None => {},
            Some(status) => {
                let mut record = package.duplicate();
                record.latest_version = match &status.latest_compatible_release {
                    Some(l) => Some(l.version.clone()),
                    None => None,
                };
                record.last_checked_at = Some(String::from_str(now));
                let ghost before = out@;
                out.push((status, record));
                proof {
                    let next = catalog_followers(packages@, i + 1);
                    assert(next == prev.push(packages@[i as int]));
                    assert forall|k: int| 0 <= k < out@.len() implies {
                        &&& is_update_status((#[trigger] out@[k]).0, next[k], releases@, core_version@)
                        &&& is_checked_record(out@[k].1, next[k], out@[k].0, now@)
                    } by {
                        if k < before.len() {
                            assert(out@[k] == before[k] && next[k] == prev[k]);
                        }
                    }
                }
            },
        }
        i = i + 1;
    }
    out
}

} // verus!
