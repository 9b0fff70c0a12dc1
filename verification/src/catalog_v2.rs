//! Catalog v2: an index of packages with per-package release histories,
//! their validation, and the release records cached from them.

use vstd::prelude::*;
use crate::error::{AppError, AppResult, message_with};
use crate::models::ConversationAdapterPackageRecordKind;
use crate::script_catalog::str_eq;
use crate::clock::{elapsed_exceeds_seconds, now_rfc3339, rfc3339_elapsed_exceeds_seconds};
use crate::paths::{join, join_path, parent, path_parent};
use crate::text::{
    append_chars, chars_of, lemma_trim_idempotent, lemma_trim_shape, starts_with, starts_with_vec, string_of, trim,
    trim_str,
};
use crate::versions::{
    semver_greater, semver_newer, semver_parse_error, semver_req_accepts, semver_req_matches,
    semver_req_parse_error, semver_req_valid, semver_valid, parse_semver, parse_semver_req,
};

verus! {

/// Release channel of a catalog release.
#[derive(Debug, Clone, Copy, PartialEq, Eq, Structural)]
pub enum ConversationAdapterReleaseChannel {
    Stable,
    Beta,
}

/// The catalog v2 index document.
pub struct CatalogV2Index {
    pub schema_version: u32,
    pub packages: Vec<CatalogV2PackageIndex>,
}

/// One package of the index.
pub struct CatalogV2PackageIndex {
    pub package_id: String,
    pub stable_version: Option<String>,
    pub beta_version: Option<String>,
    pub history_url: String,
}

/// The release history document of one package.
pub struct CatalogV2History {
    pub schema_version: u32,
    pub package_id: String,
    pub adapter_id: String,
    pub name: String,
    pub publisher: String,
    pub record_kind: ConversationAdapterPackageRecordKind,
    pub package_manifest_file: String,
    pub adapter_manifest_file: String,
    pub releases: Vec<CatalogV2Release>,
}

/// One release of a history document.
pub struct CatalogV2Release {
    pub version: String,
    pub channel: ConversationAdapterReleaseChannel,
    pub released_at: Option<String>,
    pub core_compatibility: String,
    pub artifact_url: String,
    pub artifact_size: Option<i64>,
    pub artifact_sha256: String,
    pub changelog_markdown: String,
    pub breaking_change: bool,
    pub runtime_protocol: String,
    /// The adapter manifest of the release, as JSON text.
    pub adapter_manifest: Option<String>,
    /// The source of the release, as JSON text.
    pub source: Option<String>,
}

/// A cached catalog release of a package.
pub struct ConversationAdapterCatalogRelease {
    pub catalog_url: String,
    pub package_id: String,
    pub adapter_id: String,
    pub name: String,
    pub publisher: String,
    pub version: String,
    pub channel: ConversationAdapterReleaseChannel,
    pub released_at: Option<String>,
    pub core_compatibility: String,
    pub artifact_url: String,
    pub artifact_size: Option<i64>,
    pub artifact_sha256: String,
    pub changelog_markdown: String,
    pub breaking_change: bool,
    pub runtime_protocol: String,
    pub record_kind: ConversationAdapterPackageRecordKind,
    pub package_manifest_file: String,
    pub adapter_manifest_file: String,
    pub adapter_manifest_json: Option<String>,
    pub source_json: Option<String>,
    pub etag: Option<String>,
    pub fetched_at: String,
}

/// The index URL used when none is given.
pub open spec fn default_catalog_v2_url() -> Seq<char> {
    "https://raw.githubusercontent.com/util6/assetiweave/main/parser-catalog/index.json"@
}

/// The given catalog URL, trimmed, or the default one when it is blank.
pub fn normalized_catalog_v2_url(value: Option<&str>) -> (r: String)
    ensures
        r@ == (match value {
            Some(v) => if trim(v@).len() > 0 {
                trim(v@)
            } else {
                default_catalog_v2_url()
            },
            None => default_catalog_v2_url(),
        }),
{
    if let Some(v) = value {
        let t = trim_str(v);
        if t.unicode_len() > 0 {
            return t;
        }
    }
    String::from_str("https://raw.githubusercontent.com/util6/assetiweave/main/parser-catalog/index.json")
}

/// Characters allowed in a catalog v2 package id.
pub open spec fn package_id_char(c: char) -> bool {
    ('a' <= c && c <= 'z') || ('0' <= c && c <= '9') || c == '-' || c == '_' || c == '.'
}

/// A package id that is safe as a path segment.
pub open spec fn safe_package_id(value: Seq<char>) -> bool {
    &&& value.len() > 0
    &&& value != "."@
    &&& value != ".."@
    &&& forall|i: int| 0 <= i < value.len() ==> package_id_char(#[trigger] value[i])
}

/// Accepts only non-empty ids of `[a-z0-9._-]` other than `.` and `..`.
pub fn validate_catalog_package_id(value: &str) -> (r: AppResult<()>)
    ensures
        r is Ok <==> safe_package_id(value@),
        r matches Err(e) ==> e == AppError::Other(e->Other_0) && e->Other_0@
            == "Catalog v2 package_id is unsafe: "@ + value@,
{
    let v = chars_of(value);
    if v.len() == 0 || str_eq(value, ".") || str_eq(value, "..")
        || !crate::script_catalog::all_catalog_id_chars(&v) {
        return Err(AppError::Other(message_with("Catalog v2 package_id is unsafe: ", value)));
    }
    Ok(())
}

pub fn default_package_manifest_file() -> (r: String)
    ensures
        r@ == "conversation-adapter-package.json"@,
{
    String::from_str("conversation-adapter-package.json")
}

pub fn default_adapter_manifest_file() -> (r: String)
    ensures
        r@ == "conversation-adapter.json"@,
{
    String::from_str("conversation-adapter.json")
}

/// Whether `candidate` is a newer SemVer version than `current`; false when
/// either does not parse.
pub fn semver_is_newer(candidate: &str, current: &str) -> (r: bool)
    ensures
        r == (semver_valid(candidate@) && semver_valid(current@) && semver_greater(
            candidate@,
            current@,
        )),
{
    match semver_newer(candidate, current) {
        Some(g) => g,
        None => false,
    }
}

/// Whether a release's Core requirement accepts this Core version; false when
/// either does not parse.
pub fn release_is_core_compatible(release: &ConversationAdapterCatalogRelease, core_version: &str) -> (r:
    bool)
    ensures
        r == (semver_req_valid(release.core_compatibility@) && semver_valid(core_version@)
            && semver_req_matches(release.core_compatibility@, core_version@)),
{
    match semver_req_accepts(release.core_compatibility.as_str(), core_version) {
        Some(m) => m,
        None => false,
    }
}

/// The message for an index version that `semver` refuses.
pub open spec fn index_version_error(v: Seq<char>) -> Seq<char> {
    "Catalog v2 latest version must be SemVer ("@ + v + "): "@ + semver_parse_error(v)->0
}

/// The first problem of an optional index version, if it does not parse.
pub open spec fn opt_version_error(v: Option<String>) -> Option<Seq<char>> {
    match v {
        Some(t) if !semver_valid(t@) => Some(index_version_error(t@)),
        _ => None,
    }
}

/// The problem of package `i` of the index, checked in order: a safe id, an
/// id not seen before, a history URL, SemVer stable and beta versions.
pub open spec fn index_package_error(packages: Seq<CatalogV2PackageIndex>, i: int) -> Option<Seq<char>> {
    let p = packages[i];
    let id = p.package_id@;
    if !safe_package_id(id) {
        Some("Catalog v2 package_id is unsafe: "@ + id)
    } else if exists|j: int| 0 <= j < i && packages[j].package_id@ == id {
        Some("duplicate Catalog v2 package: "@ + id)
    } else if trim(p.history_url@).len() == 0 {
        Some("Catalog v2 history URL is required: "@ + id)
    } else if opt_version_error(p.stable_version) is Some {
        opt_version_error(p.stable_version)
    } else {
        opt_version_error(p.beta_version)
    }
}

/// The first problem among packages `i..`.
pub open spec fn first_index_error(packages: Seq<CatalogV2PackageIndex>, i: int) -> Option<Seq<char>>
    decreases packages.len() - i,
{
    if i < 0 || i >= packages.len() {
        None
    } else if index_package_error(packages, i) is Some {
        index_package_error(packages, i)
    } else {
        first_index_error(packages, i + 1)
    }
}

/// Why an index document is refused, if it is.
pub open spec fn catalog_index_error(index: CatalogV2Index) -> Option<Seq<char>> {
    if index.schema_version != 2 {
        Some("conversation adapter Catalog index schema_version must be 2"@)
    } else {
        first_index_error(index.packages@, 0)
    }
}

fn check_index_version(v: &Option<String>) -> (r: AppResult<()>)
    ensures
        match opt_version_error(*v) {
            None => r is Ok,
            Some(m) => r matches Err(e) && e is Other && e->Other_0@ == m,
        },
{
    match v {
        Some(t) => match parse_semver(t.as_str()) {
            Ok(_) => Ok(()),
            Err(m) => {
                let mut text = chars_of("Catalog v2 latest version must be SemVer (");
                append_chars(&mut text, &chars_of(t.as_str()));
                append_chars(&mut text, &chars_of("): "));
                append_chars(&mut text, &chars_of(m.as_str()));
                Err(AppError::Other(string_of(&text)))
            },
        },
        None => Ok(()),
    }
}

/// Checks the index: schema 2, and for each package in order a safe unique
/// id, a history URL and SemVer latest versions; the first problem is
/// reported.
pub fn validate_catalog_v2_index(index: &CatalogV2Index) -> (r: AppResult<()>)
    ensures
        match catalog_index_error(*index) {
            None => r is Ok,
            Some(m) => r matches Err(e) && e is Other && e->Other_0@ == m,
        },
{
    if index.schema_version != 2 {
        return Err(AppError::Other(String::from_str(
            "conversation adapter Catalog index schema_version must be 2",
        )));
    }
    let ps = &index.packages;
    let mut i: usize = 0;
    while i < ps.len()
        invariant
            index.schema_version == 2,
            ps@ == index.packages@,
            i <= ps@.len(),
            first_index_error(ps@, 0) == first_index_error(ps@, i as int),
        decreases ps.len() - i,
    {
        let package = &ps[i];
        if validate_catalog_package_id(package.package_id.as_str()).is_err() {
            return Err(AppError::Other(message_with(
                "Catalog v2 package_id is unsafe: ",
                package.package_id.as_str(),
            )));
        }
        let mut j: usize = 0;
        while j < i
            invariant
                j <= i < ps@.len(),
                index.schema_version == 2,
                ps@ == index.packages@,
                first_index_error(ps@, 0) == first_index_error(ps@, i as int),
                safe_package_id(ps@[i as int].package_id@),
                forall|k: int| 0 <= k < j ==> ps@[k].package_id@ != ps@[i as int].package_id@,
            decreases i - j,
        {
            if str_eq(ps[j].package_id.as_str(), ps[i].package_id.as_str()) {
                assert(ps@[j as int].package_id@ == ps@[i as int].package_id@);
                return Err(AppError::Other(message_with(
                    "duplicate Catalog v2 package: ",
                    ps[i].package_id.as_str(),
                )));
            }
            j = j + 1;
        }
        let url = trim_str(package.history_url.as_str());
        if url.unicode_len() == 0 {
            return Err(AppError::Other(message_with(
                "Catalog v2 history URL is required: ",
                package.package_id.as_str(),
            )));
        }
        if let Err(e) = check_index_version(&package.stable_version) {
            return Err(e);
        }
        if let Err(e) = check_index_version(&package.beta_version) {
            return Err(e);
        }
        i = i + 1;
    }
    Ok(())
}

/// ASCII hexadecimal digit.
pub open spec fn hex_digit(c: char) -> bool {
    ('0' <= c && c <= '9') || ('a' <= c && c <= 'f') || ('A' <= c && c <= 'F')
}

/// 64 hexadecimal digits. (These are ASCII, so the byte length of such a
/// text equals this character count.)
pub open spec fn sha256_text(s: Seq<char>) -> bool {
    s.len() == 64 && forall|i: int| 0 <= i < s.len() ==> hex_digit(#[trigger] s[i])
}

pub fn is_sha256_text(s: &str) -> (r: bool)
    ensures
        r == sha256_text(s@),
{
    let v = chars_of(s);
    if v.len() != 64 {
        return false;
    }
    let mut i: usize = 0;
    while i < v.len()
        invariant
            i <= v@.len(),
            v@ == s@,
            v@.len() == 64,
            forall|k: int| 0 <= k < i ==> hex_digit(#[trigger] v@[k]),
        decreases v.len() - i,
    {
        let c = v[i];
        if !(('0' <= c && c <= '9') || ('a' <= c && c <= 'f') || ('A' <= c && c <= 'F')) {
            assert(!hex_digit(v@[i as int]));
            return false;
        }
        i = i + 1;
    }
    true
}

/// `<package>@<version>`.
pub open spec fn release_label(package_id: Seq<char>, version: Seq<char>) -> Seq<char> {
    package_id + "@"@ + version
}

/// The problem of release `i` of a history, checked in order: a SemVer
/// version, a valid Core requirement, a version not seen before, the
/// supported runtime protocol, and artifact URL and SHA-256.
pub open spec fn history_release_error(package_id: Seq<char>, releases: Seq<CatalogV2Release>, i: int) -> Option<Seq<char>> {
    let r = releases[i];
    let v = r.version@;
    if !semver_valid(v) {
        Some("Catalog v2 release version must be SemVer ("@ + v + "): "@ + semver_parse_error(v)->0)
    } else if !semver_req_valid(r.core_compatibility@) {
        Some(
            "Catalog v2 Core compatibility is invalid ("@ + v + "): "@ + semver_req_parse_error(
                r.core_compatibility@,
            )->0,
        )
    } else if exists|j: int| 0 <= j < i && releases[j].version@ == v {
        Some("duplicate Catalog v2 release: "@ + release_label(package_id, v))
    } else if r.runtime_protocol@ != "stdio-ndjson-v1"@ {
        Some("unsupported Catalog v2 runtime protocol: "@ + r.runtime_protocol@)
    } else if trim(r.artifact_url@).len() == 0 || !sha256_text(r.artifact_sha256@) {
        Some("Catalog v2 artifact metadata is invalid: "@ + release_label(package_id, v))
    } else {
        None
    }
}

/// The first problem among releases `i..`.
pub open spec fn first_release_error(package_id: Seq<char>, releases: Seq<CatalogV2Release>, i: int) -> Option<Seq<char>>
    decreases releases.len() - i,
{
    if i < 0 || i >= releases.len() {
        None
    } else if history_release_error(package_id, releases, i) is Some {
        history_release_error(package_id, releases, i)
    } else {
        first_release_error(package_id, releases, i + 1)
    }
}

/// The history has a release of the channel with exactly that version.
pub open spec fn has_channel_release(
    releases: Seq<CatalogV2Release>,
    channel: ConversationAdapterReleaseChannel,
    version: Seq<char>,
) -> bool {
    exists|i: int| 0 <= i < releases.len() && releases[i].channel == channel && releases[i].version@ == version
}

/// The problem when the index's latest version for a channel has no
/// release of that channel in the history.
pub open spec fn channel_error(
    package_id: Seq<char>,
    releases: Seq<CatalogV2Release>,
    channel: ConversationAdapterReleaseChannel,
    expected: Option<String>,
) -> Option<Seq<char>> {
    match expected {
        Some(v) if !has_channel_release(releases, channel, v@) => Some(
            "Catalog v2 latest channel version is missing: "@ + release_label(package_id, v@),
        ),
        _ => None,
    }
}

/// Why a history is refused for its index entry, if it is: identity, then
/// each release in order, then the stable and beta channel versions.
pub open spec fn catalog_history_error(package: CatalogV2PackageIndex, history: CatalogV2History) -> Option<Seq<char>> {
    let pid = history.package_id@;
    if history.schema_version != 2 || pid != package.package_id@ {
        Some("Catalog v2 history identity mismatch: "@ + package.package_id@)
    } else if first_release_error(pid, history.releases@, 0) is Some {
        first_release_error(pid, history.releases@, 0)
    } else if channel_error(
        pid,
        history.releases@,
        ConversationAdapterReleaseChannel::Stable,
        package.stable_version,
    ) is Some {
        channel_error(pid, history.releases@, ConversationAdapterReleaseChannel::Stable, package.stable_version)
    } else {
        channel_error(pid, history.releases@, ConversationAdapterReleaseChannel::Beta, package.beta_version)
    }
}

pub fn channel_release_present(
    releases: &Vec<CatalogV2Release>,
    channel: ConversationAdapterReleaseChannel,
    version: &str,
) -> (r: bool)
    ensures
        r == has_channel_release(releases@, channel, version@),
{
    let mut i: usize = 0;
    while i < releases.len()
        invariant
            i <= releases@.len(),
            forall|k: int| 0 <= k < i ==> !(releases@[k].channel == channel && releases@[k].version@ == version@),
        decreases releases.len() - i,
    {
        if releases[i].channel == channel && str_eq(releases[i].version.as_str(), version) {
            return true;
        }
        i = i + 1;
    }
    false
}

/// Checks a history against its index entry: identity, each release's
/// SemVer version, Core requirement, uniqueness, runtime protocol and
/// artifact metadata, and that the index's stable and beta versions exist in
/// their channels; the first problem is reported.
pub fn validate_catalog_v2_history(package: &CatalogV2PackageIndex, history: &CatalogV2History) -> (r:
    AppResult<()>)
    ensures
        match catalog_history_error(*package, *history) {
            None => r is Ok,
            Some(m) => r matches Err(e) && e is Other && e->Other_0@ == m,
        },
{
    if history.schema_version != 2 || !str_eq(history.package_id.as_str(), package.package_id.as_str()) {
        return Err(AppError::Other(message_with(
            "Catalog v2 history identity mismatch: ",
            package.package_id.as_str(),
        )));
    }
    let ghost pid = history.package_id@;
    let rs = &history.releases;
    let mut i: usize = 0;
    while i < rs.len()
        invariant
            history.schema_version == 2,
            pid == history.package_id@,
            pid == package.package_id@,
            rs@ == history.releases@,
            i <= rs@.len(),
            first_release_error(pid, rs@, 0) == first_release_error(pid, rs@, i as int),
        decreases rs.len() - i,
    {
        let release = &rs[i];
        if let Err(m) = parse_semver(release.version.as_str()) {
            let mut text = chars_of("Catalog v2 release version must be SemVer (");
            append_chars(&mut text, &chars_of(release.version.as_str()));
            append_chars(&mut text, &chars_of("): "));
            append_chars(&mut text, &chars_of(m.as_str()));
            return Err(AppError::Other(string_of(&text)));
        }
        if let Err(m) = parse_semver_req(release.core_compatibility.as_str()) {
            let mut text = chars_of("Catalog v2 Core compatibility is invalid (");
            append_chars(&mut text, &chars_of(release.version.as_str()));
            append_chars(&mut text, &chars_of("): "));
            append_chars(&mut text, &chars_of(m.as_str()));
            return Err(AppError::Other(string_of(&text)));
        }
        let mut label = chars_of(history.package_id.as_str());
        append_chars(&mut label, &chars_of("@"));
        append_chars(&mut label, &chars_of(release.version.as_str()));
        let mut j: usize = 0;
        while j < i
            invariant
                j <= i < rs@.len(),
                history.schema_version == 2,
                pid == history.package_id@,
                pid == package.package_id@,
                rs@ == history.releases@,
                first_release_error(pid, rs@, 0) == first_release_error(pid, rs@, i as int),
                semver_valid(rs@[i as int].version@),
                semver_req_valid(rs@[i as int].core_compatibility@),
                label@ == release_label(pid, rs@[i as int].version@),
                forall|k: int| 0 <= k < j ==> rs@[k].version@ != rs@[i as int].version@,
            decreases i - j,
        {
            if str_eq(rs[j].version.as_str(), rs[i].version.as_str()) {
                assert(rs@[j as int].version@ == rs@[i as int].version@);
                let mut text = chars_of("duplicate Catalog v2 release: ");
                append_chars(&mut text, &label);
                return Err(AppError::Other(string_of(&text)));
            }
            j = j + 1;
        }
        if !str_eq(release.runtime_protocol.as_str(), "stdio-ndjson-v1") {
            return Err(AppError::Other(message_with(
                "unsupported Catalog v2 runtime protocol: ",
                release.runtime_protocol.as_str(),
            )));
        }
        let url = trim_str(release.artifact_url.as_str());
        if url.unicode_len() == 0 || !is_sha256_text(release.artifact_sha256.as_str()) {
            let mut text = chars_of("Catalog v2 artifact metadata is invalid: ");
            append_chars(&mut text, &label);
            return Err(AppError::Other(string_of(&text)));
        }
        i = i + 1;
    }
    if let Some(expected) = &package.stable_version {
        if !channel_release_present(rs, ConversationAdapterReleaseChannel::Stable, expected.as_str()) {
            let mut text = chars_of("Catalog v2 latest channel version is missing: ");
            append_chars(&mut text, &chars_of(history.package_id.as_str()));
            append_chars(&mut text, &chars_of("@"));
            append_chars(&mut text, &chars_of(expected.as_str()));
            return Err(AppError::Other(string_of(&text)));
        }
    }
    if let Some(expected) = &package.beta_version {
        if !channel_release_present(rs, ConversationAdapterReleaseChannel::Beta, expected.as_str()) {
            let mut text = chars_of("Catalog v2 latest channel version is missing: ");
            append_chars(&mut text, &chars_of(history.package_id.as_str()));
            append_chars(&mut text, &chars_of("@"));
            append_chars(&mut text, &chars_of(expected.as_str()));
            return Err(AppError::Other(string_of(&text)));
        }
    }
    Ok(())
}

impl CatalogV2Release {
    /// The cached release record: the history's package identity and files,
    /// the release's own fields, the catalog URL, ETag and fetch time.
    pub fn into_model(
        self,
        catalog_url: &str,
        history: &CatalogV2History,
        etag: Option<String>,
        fetched_at: &str,
    ) -> (r: ConversationAdapterCatalogRelease)
        ensures
            r.catalog_url@ == catalog_url@,
            r.package_id == history.package_id,
            r.adapter_id == history.adapter_id,
            r.name == history.name,
            r.publisher == history.publisher,
            r.version == self.version,
            r.channel == self.channel,
            r.released_at == self.released_at,
            r.core_compatibility == self.core_compatibility,
            r.artifact_url == self.artifact_url,
            r.artifact_size == self.artifact_size,
            r.artifact_sha256 == self.artifact_sha256,
            r.changelog_markdown == self.changelog_markdown,
            r.breaking_change == self.breaking_change,
            r.runtime_protocol == self.runtime_protocol,
            r.record_kind == history.record_kind,
            r.package_manifest_file == history.package_manifest_file,
            r.adapter_manifest_file == history.adapter_manifest_file,
            r.adapter_manifest_json == self.adapter_manifest,
            r.source_json == self.source,
            r.etag == etag,
            r.fetched_at@ == fetched_at@,
    {
        ConversationAdapterCatalogRelease {
            catalog_url: String::from_str(catalog_url),
            package_id: history.package_id.clone(),
            adapter_id: history.adapter_id.clone(),
            name: history.name.clone(),
            publisher: history.publisher.clone(),
            version: self.version,
            channel: self.channel,
            released_at: self.released_at,
            core_compatibility: self.core_compatibility,
            artifact_url: self.artifact_url,
            artifact_size: self.artifact_size,
            artifact_sha256: self.artifact_sha256,
            changelog_markdown: self.changelog_markdown,
            breaking_change: self.breaking_change,
            runtime_protocol: self.runtime_protocol,
            record_kind: history.record_kind,
            package_manifest_file: history.package_manifest_file.clone(),
            adapter_manifest_file: history.adapter_manifest_file.clone(),
            adapter_manifest_json: self.adapter_manifest,
            source_json: self.source,
            etag,
            fetched_at: String::from_str(fetched_at),
        }
    }
}


proof fn lemma_no_index_error_from(ps: Seq<CatalogV2PackageIndex>, k: int)
    requires
        0 <= k,
        first_index_error(ps, k) is None,
    ensures
        forall|i: int| k <= i < ps.len() ==> index_package_error(ps, i) is None,
    decreases ps.len() - k,
{
    if k < ps.len() {
        lemma_no_index_error_from(ps, k + 1);
    }
}

/// An accepted index has schema 2 and lists each package once, under a
/// safe id, with a history URL and SemVer latest versions.
pub proof fn law_accepted_index_is_well_formed(index: CatalogV2Index)
    requires
        catalog_index_error(index) is None,
    ensures
        index.schema_version == 2,
        forall|i: int, j: int|
            0 <= i < j < index.packages@.len() ==> index.packages@[i].package_id@
                != index.packages@[j].package_id@,
        forall|i: int|
            0 <= i < index.packages@.len() ==> {
                let p = #[trigger] index.packages@[i];
                &&& safe_package_id(p.package_id@)
                &&& trim(p.history_url@).len() > 0
                &&& (p.stable_version matches Some(v) ==> semver_valid(v@))
                &&& (p.beta_version matches Some(v) ==> semver_valid(v@))
            },
{
    let ps = index.packages@;
    lemma_no_index_error_from(ps, 0);
    assert forall|i: int, j: int| 0 <= i < j < ps.len() implies ps[i].package_id@ != ps[j].package_id@ by {
        assert(index_package_error(ps, j) is None);
    }
    assert forall|i: int| 0 <= i < ps.len() implies {
        let p = #[trigger] ps[i];
        &&& safe_package_id(p.package_id@)
        &&& trim(p.history_url@).len() > 0
        &&& (p.stable_version matches Some(v) ==> semver_valid(v@))
        &&& (p.beta_version matches Some(v) ==> semver_valid(v@))
    } by {
        assert(index_package_error(ps, i) is None);
    }
}

proof fn lemma_no_release_error_from(pid: Seq<char>, rs: Seq<CatalogV2Release>, k: int)
    requires
        0 <= k,
        first_release_error(pid, rs, k) is None,
    ensures
        forall|i: int| k <= i < rs.len() ==> history_release_error(pid, rs, i) is None,
    decreases rs.len() - k,
{
    if k < rs.len() {
        lemma_no_release_error_from(pid, rs, k + 1);
    }
}

/// An accepted history belongs to its index entry, lists each version once,
/// every release with a SemVer version, a valid Core requirement, the
/// supported runtime protocol and a SHA-256 artifact digest, and holds the
/// index's stable and beta versions in their channels.
pub proof fn law_accepted_history_is_well_formed(package: CatalogV2PackageIndex, history: CatalogV2History)
    requires
        catalog_history_error(package, history) is None,
    ensures
        history.schema_version == 2,
        history.package_id@ == package.package_id@,
        forall|i: int, j: int|
            0 <= i < j < history.releases@.len() ==> history.releases@[i].version@
                != history.releases@[j].version@,
        forall|i: int|
            0 <= i < history.releases@.len() ==> {
                let r = #[trigger] history.releases@[i];
                &&& semver_valid(r.version@)
                &&& semver_req_valid(r.core_compatibility@)
                &&& r.runtime_protocol@ == "stdio-ndjson-v1"@
                &&& trim(r.artifact_url@).len() > 0
                &&& sha256_text(r.artifact_sha256@)
            },
        package.stable_version matches Some(v) ==> has_channel_release(
            history.releases@,
            ConversationAdapterReleaseChannel::Stable,
            v@,
        ),
        package.beta_version matches Some(v) ==> has_channel_release(
            history.releases@,
            ConversationAdapterReleaseChannel::Beta,
            v@,
        ),
{
    let pid = history.package_id@;
    let rs = history.releases@;
    lemma_no_release_error_from(pid, rs, 0);
    assert forall|i: int, j: int| 0 <= i < j < rs.len() implies rs[i].version@ != rs[j].version@ by {
        assert(history_release_error(pid, rs, j) is None);
    }
    assert forall|i: int| 0 <= i < rs.len() implies {
        let r = #[trigger] rs[i];
        &&& semver_valid(r.version@)
        &&& semver_req_valid(r.core_compatibility@)
        &&& r.runtime_protocol@ == "stdio-ndjson-v1"@
        &&& trim(r.artifact_url@).len() > 0
        &&& sha256_text(r.artifact_sha256@)
    } by {
        assert(history_release_error(pid, rs, i) is None);
    }
}


/// The catalog URL a request resolves to.
pub open spec fn catalog_v2_url(value: Option<Seq<char>>) -> Seq<char> {
    match value {
        Some(v) => if trim(v).len() > 0 {
            trim(v)
        } else {
            default_catalog_v2_url()
        },
        None => default_catalog_v2_url(),
    }
}

/// Normalizing an already normalized catalog URL gives it back.
pub proof fn law_catalog_url_normalization_is_stable(value: Option<Seq<char>>)
    ensures
        catalog_v2_url(Some(catalog_v2_url(value))) == catalog_v2_url(value),
{
    match value {
        Some(v) => {
            lemma_trim_idempotent(v);
        },
        None => {},
    }
    lemma_trim_idempotent(default_catalog_v2_url());
    assert(trim(default_catalog_v2_url()) == default_catalog_v2_url()) by {
        reveal_strlit("https://raw.githubusercontent.com/util6/assetiweave/main/parser-catalog/index.json");
        lemma_trim_shape(default_catalog_v2_url());
    }
}

/// A catalog location fetched over HTTP(S).
pub open spec fn is_http_url(s: Seq<char>) -> bool {
    starts_with(s, "https://"@) || starts_with(s, "http://"@)
}

fn http_url(s: &str) -> (r: bool)
    ensures
        r == is_http_url(s@),
{
    let v = chars_of(s);
    starts_with_vec(&v, &chars_of("https://")) || starts_with_vec(&v, &chars_of("http://"))
}

/// What `url::Url::parse(base)` followed by `Url::join(reference)` gives,
/// serialized, or the parse error's text.
pub uninterp spec fn url_joined(base: Seq<char>, reference: Seq<char>) -> Result<Seq<char>, Seq<char>>;

/// `url::Url::parse(base)` then `join(reference)`, the result serialized
/// with `to_string`; on failure the error's `Display` text.
#[verifier::external_body]
fn join_url(base: &str, reference: &str) -> (r: Result<String, String>)
    ensures
        match url_joined(base@, reference@) {
            Ok(u) => r matches Ok(s) && s@ == u,
            Err(e) => r matches Err(m) && m@ == e,
        },
{
    match url::Url::parse(base).and_then(|url| url.join(reference)) {
        Ok(url) => Ok(url.to_string()),
        Err(error) => Err(error.to_string()),
    }
}

/// Where a history document is fetched from when either location is a
/// web address: an absolute history URL as it is, else the history URL
/// resolved against the index URL. `None` when both are local paths.
pub fn resolve_remote_catalog_document_url(index_url: &str, history_url: &str) -> (r: Option<AppResult<String>>)
    ensures
        is_http_url(history_url@) ==> (r matches Some(Ok(u)) && u@ == history_url@),
        !is_http_url(history_url@) && is_http_url(index_url@) ==> (r matches Some(x) && match url_joined(
            index_url@,
            history_url@,
        ) {
            Ok(u) => x matches Ok(v) && v@ == u,
            Err(e) => x matches Err(err) && err is Other && err->Other_0@
                == "resolve Catalog v2 history URL failed: "@ + e,
        }),
        !is_http_url(history_url@) && !is_http_url(index_url@) ==> r is None,
{
    if http_url(history_url) {
        return Some(Ok(String::from_str(history_url)));
    }
    if http_url(index_url) {
        return match join_url(index_url, history_url) {
            Ok(u) => Some(Ok(u)),
            Err(e) => Some(Err(AppError::Other(message_with("resolve Catalog v2 history URL failed: ", e.as_str())))),
        };
    }
    None
}

/// The path of a history document next to a local index file: the history
/// path joined to the index file's folder (`.` when it has none).
pub fn local_catalog_document_path(index_path: &str, history_url: &str) -> (r: String)
    ensures
        r@ == join(
            match parent(index_path@) {
                Some(p) => p,
                None => "."@,
            },
            history_url@,
        ),
{
    let dir = match path_parent(&chars_of(index_path)) {
        Some(p) => p,
        None => chars_of("."),
    };
    string_of(&join_path(&dir, &chars_of(history_url)))
}

/// Cached releases older than this, a day in seconds, are fetched again.
pub const CATALOG_CACHE_MAX_AGE_SECONDS: i64 = 86400;

/// The cache is stale when no release records a readable fetch time, or
/// when even the latest one lies more than a day before `now`: every
/// readable fetch time is older than a day.
pub open spec fn cache_stale_at(releases: Seq<ConversationAdapterCatalogRelease>, now: Seq<char>) -> bool {
    forall|i: int|
        0 <= i < releases.len() ==> (#[trigger] rfc3339_elapsed_exceeds_seconds(
            now,
            releases[i].fetched_at@,
            CATALOG_CACHE_MAX_AGE_SECONDS,
        )) != Some(false)
}

/// Whether the cached releases are stale at `now`.
pub fn catalog_cache_is_stale_at(releases: &[ConversationAdapterCatalogRelease], now: &str) -> (r: bool)
    ensures
        r == cache_stale_at(releases@, now@),
{
    let mut i: usize = 0;
    while i < releases.len()
        invariant
            i <= releases@.len(),
            forall|j: int|
                0 <= j < i ==> (#[trigger] rfc3339_elapsed_exceeds_seconds(
                    now@,
                    releases@[j].fetched_at@,
                    CATALOG_CACHE_MAX_AGE_SECONDS,
                )) != Some(false),
        decreases releases.len() - i,
    {
        if let Some(false) = elapsed_exceeds_seconds(now, releases[i].fetched_at.as_str(), CATALOG_CACHE_MAX_AGE_SECONDS) {
            return false;
        }
        i = i + 1;
    }
    true
}

/// Whether the cached releases are stale now; the time is read from the
/// clock, so this holds of whatever time was read.
pub fn catalog_cache_is_stale(releases: &[ConversationAdapterCatalogRelease]) -> (r: bool)
    ensures
        exists|now: Seq<char>| r == cache_stale_at(releases@, now),
{
    let now = now_rfc3339();
    catalog_cache_is_stale_at(releases, now.as_str())
}

/// Release `a` comes before release `b` when listed newest first: its
/// version parses and is greater, or only its version parses.
pub open spec fn release_newer(a: Seq<char>, b: Seq<char>) -> bool {
    semver_valid(a) && (!semver_valid(b) || semver_greater(a, b))
}

fn release_newer_exec(a: &str, b: &str) -> (r: bool)
    ensures
        r == release_newer(a@, b@),
        r ==> !release_newer(b@, a@),
        r ==> forall|c: Seq<char>| #[trigger] release_newer(c, a@) ==> release_newer(c, b@),
        r ==> forall|c: Seq<char>| !#[trigger] release_newer(c, b@) ==> release_newer(a@, c),
{
    if parse_semver(a).is_err() {
        return false;
    }
    if parse_semver(b).is_err() {
        return true;
    }
    match semver_newer(a, b) {
        Some(g) => g,
        None => false,
    }
}

/// No release is newer than any listed before it.
pub open spec fn newest_first(s: Seq<ConversationAdapterCatalogRelease>) -> bool {
    forall|i: int, j: int|
        0 <= i < j < s.len() ==> !release_newer(#[trigger] s[j].version@, #[trigger] s[i].version@)
}

/// Neither release is newer than the other.
pub open spec fn release_tied(a: ConversationAdapterCatalogRelease, b: ConversationAdapterCatalogRelease) -> bool {
    !release_newer(a.version@, b.version@) && !release_newer(b.version@, a.version@)
}

/// `out` is `input` rearranged by `perm` (the position in `input` of each
/// release of `out`), keeping the order of tied releases.
pub open spec fn stable_arrangement(
    out: Seq<ConversationAdapterCatalogRelease>,
    input: Seq<ConversationAdapterCatalogRelease>,
    perm: Seq<int>,
) -> bool {
    &&& perm.len() == out.len()
    &&& out.len() == input.len()
    &&& forall|i: int| 0 <= i < out.len() ==> 0 <= #[trigger] perm[i] < input.len() && out[i] == input[perm[i]]
    &&& forall|i: int, j: int| 0 <= i < j < out.len() ==> #[trigger] perm[i] != #[trigger] perm[j]
    &&& forall|i: int, j: int|
        0 <= i < j < out.len() && release_tied(#[trigger] out[i], #[trigger] out[j]) ==> perm[i] < perm[j]
}

/// Orders releases newest first by version, releases whose version does
/// not parse last; the same releases come out, no release is newer than any
/// release before it, and releases that neither precedes keep their order,
/// as a stable sort keeps it.
pub fn sort_releases_newest_first(releases: &mut Vec<ConversationAdapterCatalogRelease>)
    ensures
        final(releases)@.to_multiset() == old(releases)@.to_multiset(),
        newest_first(final(releases)@),
        exists|perm: Seq<int>| stable_arrangement(final(releases)@, old(releases)@, perm),
{
    broadcast use vstd::seq_lib::group_to_multiset_ensures, vstd::seq_lib::to_multiset_insert,
        vstd::multiset::group_multiset_axioms, vstd::multiset::group_multiset_properties;

    let mut input: Vec<ConversationAdapterCatalogRelease> = Vec::new();
    std::mem::swap(&mut input, releases);
    let ghost all = input@;
    let mut out: Vec<ConversationAdapterCatalogRelease> = Vec::new();
    assert(out@.to_multiset().len() == 0);
    assert(out@.to_multiset() =~= vstd::multiset::Multiset::empty());
    let ghost mut perm: Seq<int> = Seq::empty();
    let ghost mut m: int = 0;
    assert(input@ =~= all.subrange(0, all.len() as int));
    while input.len() > 0
        invariant
            out@.to_multiset().add(input@.to_multiset()) == all.to_multiset(),
            newest_first(out@),
            0 <= m <= all.len(),
            input@ == all.subrange(m, all.len() as int),
            perm.len() == out@.len(),
            out@.len() == m,
            forall|i: int| 0 <= i < out@.len() ==> 0 <= #[trigger] perm[i] < m && out@[i] == all[perm[i]],
            forall|i: int, j: int| 0 <= i < j < out@.len() ==> #[trigger] perm[i] != #[trigger] perm[j],
            forall|i: int, j: int|
                0 <= i < j < out@.len() && release_tied(#[trigger] out@[i], #[trigger] out@[j]) ==> perm[i] < perm[j],
        decreases input.len(),
    {
        let ghost before = input@;
        let x = input.remove(0);
        assert(before.to_multiset() == input@.to_multiset().insert(x)) by {
            assert(before.remove(0) =~= input@);
            assert(before[0] == x);
            vstd::seq_lib::to_multiset_remove(before, 0);
            assert(before.contains(x));
            vstd::seq_lib::to_multiset_contains(before, x);
            assert(before.to_multiset().count(x) > 0);
            assert(before.to_multiset() =~= before.to_multiset().remove(x).insert(x));
        }
        let mut p: usize = 0;
        while p < out.len()
            invariant_except_break
                p <= out@.len(),
                forall|q: int| 0 <= q < p ==> !release_newer(x.version@, #[trigger] out@[q].version@),
            invariant
                p <= out@.len(),
            ensures
                p <= out@.len(),
                forall|q: int| 0 <= q < p ==> !release_newer(x.version@, #[trigger] out@[q].version@),
                p < out@.len() ==> release_newer(x.version@, out@[p as int].version@),
                p < out@.len() ==> !release_newer(out@[p as int].version@, x.version@),
                p < out@.len() ==> forall|c: Seq<char>|
                    #[trigger] release_newer(c, x.version@) ==> release_newer(c, out@[p as int].version@),
                p < out@.len() ==> forall|c: Seq<char>|
                    !#[trigger] release_newer(c, out@[p as int].version@) ==> release_newer(x.version@, c),
            decreases out.len() - p,
        {
            if release_newer_exec(x.version.as_str(), out[p].version.as_str()) {
                break;
            }
            p = p + 1;
        }
        let ghost o = out@;
        let ghost old_perm = perm;
        proof {
            if p < o.len() {
                assert(!release_newer(o[p as int].version@, x.version@));
            }
            assert(x == all[m]);
        }
        out.insert(p, x);
        proof {
            let n = out@;
            assert(n == o.insert(p as int, x));
            perm = old_perm.insert(p as int, m);
            assert forall|i: int| 0 <= i < n.len() implies 0 <= #[trigger] perm[i] < m + 1 && n[i] == all[perm[i]] by {
                if i < p {
                    assert(perm[i] == old_perm[i] && n[i] == o[i]);
                } else if i > p {
                    assert(perm[i] == old_perm[i - 1] && n[i] == o[i - 1]);
                }
            }
            assert forall|i: int, j: int| 0 <= i < j < n.len() implies #[trigger] perm[i] != #[trigger] perm[j] by {
                if i != p && j != p {
                    let i0 = if i < p { i } else { i - 1 };
                    let j0 = if j < p { j } else { j - 1 };
                    assert(perm[i] == old_perm[i0] && perm[j] == old_perm[j0]);
                    assert(old_perm[i0] != old_perm[j0]);
                } else if i == p {
                    assert(perm[j] == old_perm[j - 1]);
                } else {
                    assert(perm[i] == old_perm[i]);
                }
            }
            assert forall|i: int, j: int|
                0 <= i < j < n.len() && release_tied(#[trigger] n[i], #[trigger] n[j]) implies perm[i] < perm[j] by {
                if i != p && j != p {
                    let i0 = if i < p { i } else { i - 1 };
                    let j0 = if j < p { j } else { j - 1 };
                    assert(perm[i] == old_perm[i0] && perm[j] == old_perm[j0]);
                    assert(n[i] == o[i0] && n[j] == o[j0]);
                } else if j == p {
                    assert(perm[i] == old_perm[i]);
                } else {
                    assert(n[i] == x && n[j] == o[j - 1]);
                    let q = j - 1;
                    if q == p {
                        assert(release_newer(x.version@, o[q].version@));
                    } else {
                        assert(!release_newer(o[q].version@, o[p as int].version@));
                        assert(release_newer(x.version@, o[q].version@));
                    }
                }
            }
            assert forall|i: int, j: int|
                0 <= i < j < n.len() implies !release_newer(
                #[trigger] n[j].version@,
                #[trigger] n[i].version@,
            ) by {
                if j < p {
                    assert(n[i] == o[i] && n[j] == o[j]);
                } else if j == p {
                    assert(n[j] == x && n[i] == o[i]);
                } else if i == p {
                    assert(n[i] == x && n[j] == o[j - 1]);
                    if release_newer(o[j - 1].version@, x.version@) {
                        assert(release_newer(o[j - 1].version@, o[p as int].version@));
                        if j - 1 > p {
                            assert(!release_newer(o[j - 1].version@, o[p as int].version@));
                        }
                    }
                } else if i < p {
                    assert(n[i] == o[i] && n[j] == o[j - 1]);
                } else {
                    assert(n[i] == o[i - 1] && n[j] == o[j - 1]);
                }
            }
            vstd::seq_lib::to_multiset_insert(o, p as int, x);
            assert(n.to_multiset() == o.to_multiset().insert(x));
            assert(n.to_multiset().add(input@.to_multiset()) =~= o.to_multiset().add(before.to_multiset()));
            assert(input@ =~= all.subrange(m + 1, all.len() as int));
            m = m + 1;
        }
    }
    assert(input@.to_multiset().len() == 0);
    assert(input@.to_multiset() =~= vstd::multiset::Multiset::empty());
    assert(out@.to_multiset().add(input@.to_multiset()) =~= out@.to_multiset());
    assert(m == all.len());
    assert(stable_arrangement(out@, all, perm));
    *releases = out;
}

/// Checks a change of a package's update policy. `origin` is the package's
/// origin when the trimmed id names one. Only a managed release may leave
/// `PinExact`: every other package must stay pinned.
pub fn check_update_policy_change(
    package_id: &str,
    origin: Option<crate::models::ConversationAdapterPackageOrigin>,
    policy: crate::models::ConversationPackageUpdatePolicy,
) -> (r: crate::error::AppResult<()>)
    ensures
        match origin {
            None => r matches Err(crate::error::AppError::Other(m)) && m@
                == "conversation adapter package not found: "@ + crate::text::trim(package_id@),
            Some(o) => if o != crate::models::ConversationAdapterPackageOrigin::ManagedRelease && policy
                != crate::models::ConversationPackageUpdatePolicy::PinExact {
                r matches Err(crate::error::AppError::Other(m)) && m@
                    == "local, Git, dev, built-in, and legacy packages must remain pinned"@
            } else {
                r is Ok
            },
        },
{
    match origin {
        None => {
            let id = crate::text::trim_str(package_id);
            Err(crate::error::AppError::Other(crate::error::message_with("conversation adapter package not found: ", id.as_str())))
        },
        Some(o) => {
            if o != crate::models::ConversationAdapterPackageOrigin::ManagedRelease && policy
                != crate::models::ConversationPackageUpdatePolicy::PinExact {
                Err(crate::error::AppError::Other(String::from_str("local, Git, dev, built-in, and legacy packages must remain pinned")))
            } else {
                Ok(())
            }
        },
    }
}

/// The cached catalog must be fetched again: when asked, when nothing is
/// cached, or when the cache is stale at `now`.
pub fn catalog_refresh_needed(force: bool, cached: &[ConversationAdapterCatalogRelease], now: &str) -> (r: bool)
    ensures
        r == (force || cached@.len() == 0 || cache_stale_at(cached@, now@)),
{
    force || cached.len() == 0 || catalog_cache_is_stale_at(cached, now)
}

/// Decides a release listing: the package id must not be blank; the
/// catalogs are refreshed first when asked, when nothing is cached for the
/// package, or when its cache is stale at `now`. On success, the trimmed
/// id and whether to refresh.
pub fn plan_release_listing(
    package_id: &str,
    refresh: bool,
    cached: &[ConversationAdapterCatalogRelease],
    now: &str,
) -> (r: AppResult<(String, bool)>)
    ensures
        trim(package_id@).len() == 0 ==> (r matches Err(e) && e is Other && e->Other_0@
            == "conversation adapter package release list requires package_id"@),
        trim(package_id@).len() > 0 ==> (r matches Ok((id, again)) && id@ == trim(package_id@) && again == (refresh
            || cached@.len() == 0 || cache_stale_at(cached@, now@))),
{
    let id = crate::text::trim_str(package_id);
    if id.unicode_len() == 0 {
        return Err(AppError::Other(String::from_str("conversation adapter package release list requires package_id")));
    }
    Ok((id, catalog_refresh_needed(refresh, cached, now)))
}

/// Changes a stored package's update policy at `now` (`stored` is the
/// package the trimmed id names, if any): refused as
/// `check_update_policy_change` refuses; otherwise the stored record with
/// the new policy and `now` as its update time.
pub fn apply_update_policy_change(
    package_id: &str,
    stored: Option<&crate::models::ConversationAdapterPackage>,
    policy: crate::models::ConversationPackageUpdatePolicy,
    now: &str,
) -> (r: AppResult<crate::models::ConversationAdapterPackage>)
    ensures
        match stored {
            None => r matches Err(e) && e is Other && e->Other_0@ == "conversation adapter package not found: "@
                + trim(package_id@),
            Some(p) => if p.origin != crate::models::ConversationAdapterPackageOrigin::ManagedRelease && policy
                != crate::models::ConversationPackageUpdatePolicy::PinExact {
                r matches Err(e) && e is Other && e->Other_0@
                    == "local, Git, dev, built-in, and legacy packages must remain pinned"@
            } else {
                r matches Ok(q) && q == (crate::models::ConversationAdapterPackage {
                    update_policy: policy,
                    updated_at: q.updated_at,
                    ..*p
                }) && q.updated_at@ == now@
            },
        },
{
    let origin = match stored {
        Some(p) => Some(p.origin),
        None => None,
    };
    match check_update_policy_change(package_id, origin, policy) {
        Err(e) => Err(e),
        Ok(()) => {
            let p = stored.unwrap();
            let mut q = p.duplicate();
            q.update_policy = policy;
            q.updated_at = String::from_str(now);
            Ok(q)
        },
    }
}

} // verus!
