//! The conversation adapter package catalog: items, their validation, GitHub
//! source locations, and how catalog items resolve against installed
//! packages and registered adapters.

use vstd::prelude::*;
use crate::adapter_installer::{
    ConversationAdapterPackageInstallSource, ConversationAdapterPackageInstallSourceKind,
    ConversationAdapterPackageInstallSpec,
};
use crate::error::{error_is, AppError, AppResult, ErrorKind, message_with};
use crate::models::{
    clone_opt, clone_strings, ConversationAdapter, ConversationAdapterPackage,
    ConversationAdapterPackageChangeAction, ConversationAdapterPackageChangeRisk,
    ConversationAdapterPackageOrigin, ConversationAdapterPackageRecordKind,
    ConversationAdapterPackageVersion, ConversationAdapterRuntimeGateStatus, ConversationAdapterTrustState, ConversationSource,
};
use crate::clock::now_rfc3339;
use crate::ids::new_uuid_text;
use crate::paths::{file_name, join, join_path, parent, path_file_name, path_parent};
use crate::order::{
    lemma_lex_antisym, lemma_lex_range, lemma_lex_trans, lemma_lex_zero, lex_compare, lex_order,
};
use crate::versions::{parse_semver, semver_greater, semver_newer, semver_parse_error, semver_valid};
use crate::text::{
    lemma_join_starts, lemma_kept_from, lemma_split_fold_pieces, lemma_split_join,
    append_chars, before_char, before_char_vec, chars_eq, chars_of, contains_sub, contains_vec,
    has_char, has_char_vec,
    join_vec, join_with, kept, opt_view, skip_vecs, slice_chars, split_on, split_vec, starts_with,
    starts_with_vec, string_of, strip_suffix_all, strip_suffix_all_vec, trim, trim_char,
    trim_char_vec, trim_end_char, trim_end_char_vec, trim_str, trim_vec, views,
};

verus! {

/// `clean_non_empty_string`: the trimmed text, or nothing when it is blank.
pub open spec fn clean_text(s: Seq<char>) -> Option<Seq<char>> {
    if trim(s).len() == 0 {
        None
    } else {
        Some(trim(s))
    }
}

/// The trimmed text, or `None` when it is blank.
pub fn clean_non_empty_string(value: &str) -> (r: Option<String>)
    ensures
        opt_view(r) == clean_text(value@),
{
    let t = trim_str(value);
    if t.unicode_len() == 0 {
        None
    } else {
        Some(t)
    }
}

/// A path piece that `clean_catalog_subpath` skips.
pub open spec fn subpath_part_skipped(p: Seq<char>) -> bool {
    p.len() == 0 || p == "."@
}

/// A path piece that makes `clean_catalog_subpath` refuse the whole path.
pub open spec fn subpath_part_rejected(p: Seq<char>) -> bool {
    !subpath_part_skipped(p) && (p == ".."@ || p == ".git"@ || has_char(p, '\\') || has_char(
        p,
        ':',
    ))
}

/// The pieces of a catalog sub-path, between `/` separators.
pub open spec fn subpath_parts(value: Seq<char>) -> Seq<Seq<char>> {
    split_on(trim_char(trim(value), '/'), '/')
}

/// `clean_catalog_subpath`: the normalized relative path, or nothing when a
/// piece is `..`, `.git`, or holds `\` or `:`, or when nothing is left.
pub open spec fn catalog_subpath(value: Seq<char>) -> Option<Seq<char>> {
    let parts = subpath_parts(value);
    let k = kept(parts, |p: Seq<char>| !subpath_part_skipped(p));
    if exists|i: int| 0 <= i < parts.len() && subpath_part_rejected(#[trigger] parts[i]) {
        None
    } else if k.len() == 0 {
        None
    } else {
        Some(join_with(k, "/"@))
    }
}

/// Normalizes a relative path inside a repository, refusing unsafe pieces.
pub fn clean_catalog_subpath(value: &str) -> (r: Option<String>)
    ensures
        opt_view(r) == catalog_subpath(value@),
{
    let v = chars_of(value);
    let t = trim_vec(&v);
    let t2 = trim_char_vec(&t, '/');
    let parts = split_vec(&t2, '/');
    let dot = chars_of(".");
    let dotdot = chars_of("..");
    let dotgit = chars_of(".git");
    let ghost pv = views(parts@);
    let ghost keep_fn = |p: Seq<char>| !subpath_part_skipped(p);
    let mut keep: Vec<Vec<char>> = Vec::new();
    let mut i: usize = 0;
    assert(views(keep@) =~= kept(pv.take(0), keep_fn));
    while i < parts.len()
        invariant
            i <= parts.len(),
            pv == views(parts@),
            pv == subpath_parts(value@),
            dot@ == "."@,
            dotdot@ == ".."@,
            dotgit@ == ".git"@,
            keep_fn == (|p: Seq<char>| !subpath_part_skipped(p)),
            views(keep@) == kept(pv.take(i as int), keep_fn),
            forall|j: int| 0 <= j < i ==> !subpath_part_rejected(#[trigger] pv[j]),
        decreases parts.len() - i,
    {
        let part = &parts[i];
        proof {
            assert(pv[i as int] == part@);
            assert(pv.take(i + 1).drop_last() =~= pv.take(i as int));
            assert(pv.take(i + 1).last() == part@);
        }
        if part.len() == 0 || chars_eq(part, &dot) {
        } else {
            if chars_eq(part, &dotdot) || chars_eq(part, &dotgit) || has_char_vec(part, '\\')
                || has_char_vec(part, ':') {
                assert(subpath_part_rejected(pv[i as int]));
                return None;
            }
            let copy = slice_chars(part, 0, part.len());
            proof {
                assert(copy@ =~= part@);
                assert(views(keep@.push(copy)) =~= views(keep@).push(copy@));
            }
            keep.push(copy);
        }
        i = i + 1;
    }
    proof {
        assert(pv.take(i as int) =~= pv);
    }
    if keep.len() == 0 {
        return None;
    }
    let slash = chars_of("/");
    let joined = join_vec(&keep, &slash);
    Some(string_of(&joined))
}

/// Why `clean_relative_file_name` refuses a trimmed name.
pub open spec fn unsafe_file_name(t: Seq<char>) -> bool {
    t.len() == 0 || has_char(t, '/') || has_char(t, '\\') || t == "."@ || t == ".."@ || has_char(
        t,
        ':',
    )
}

/// The name with surrounding whitespace and `/` removed.
pub open spec fn relative_file_name(value: Seq<char>) -> Seq<char> {
    trim_char(trim(value), '/')
}

/// A bare file name for a manifest, refusing paths and special names.
pub fn clean_relative_file_name(value: &str) -> (r: AppResult<String>)
    ensures
        r matches Ok(t) ==> !unsafe_file_name(relative_file_name(value@)) && t@
            == relative_file_name(value@),
        r matches Err(e) ==> unsafe_file_name(relative_file_name(value@)) && e == AppError::Validation(
            e->Validation_0,
        ) && e->Validation_0@ == "manifest_file must be a file name: "@ + value@,
        r is Ok <==> !unsafe_file_name(relative_file_name(value@)),
{
    let v = chars_of(value);
    let t = trim_vec(&v);
    let t2 = trim_char_vec(&t, '/');
    let dot = chars_of(".");
    let dotdot = chars_of("..");
    if t2.len() == 0 || has_char_vec(&t2, '/') || has_char_vec(&t2, '\\') || chars_eq(&t2, &dot)
        || chars_eq(&t2, &dotdot) || has_char_vec(&t2, ':') {
        return Err(AppError::Validation(message_with("manifest_file must be a file name: ", value)));
    }
    Ok(string_of(&t2))
}

/// Kind of place a catalog item is fetched from.
#[derive(Debug, Clone, Copy, PartialEq, Eq, Structural)]
pub enum ConversationScriptCatalogSourceKind {
    Github,
    ArtifactZip,
    LocalDirectory,
}

/// Where a catalog item's package is fetched from.
pub struct ConversationScriptCatalogSource {
    pub kind: ConversationScriptCatalogSourceKind,
    pub url: String,
    pub branch: Option<String>,
    pub path: Option<String>,
}

/// A GitHub repository, branch and sub-directory to clone.
pub struct GitHubCatalogLocation {
    pub repo_url: String,
    pub branch: Option<String>,
    pub path: Option<String>,
}

/// The URL with whitespace, fragment, query and trailing `/` removed.
pub open spec fn github_clean_url(url: Seq<char>) -> Seq<char> {
    trim_end_char(before_char(before_char(trim(url), '#'), '?'), '/')
}

/// The part of a cleaned URL after `https://github.com/`, if it has that prefix.
pub open spec fn github_rest(url: Seq<char>) -> Option<Seq<char>> {
    let c = github_clean_url(url);
    if starts_with(c, "https://github.com/"@) {
        Some(c.skip("https://github.com/"@.len() as int))
    } else {
        None
    }
}

/// The `/`-separated pieces after the GitHub prefix.
pub open spec fn github_parts(rest: Seq<char>) -> Seq<Seq<char>> {
    split_on(rest, '/')
}

/// Owner and repository pieces are present and non-empty.
pub open spec fn github_has_owner_repo(parts: Seq<Seq<char>>) -> bool {
    parts.len() >= 2 && parts[0].len() > 0 && parts[1].len() > 0
}

/// The repository name without trailing `.git` suffixes.
pub open spec fn github_repo(parts: Seq<Seq<char>>) -> Seq<char> {
    strip_suffix_all(parts[1], ".git"@)
}

/// The clone URL of an owner and repository.
pub open spec fn github_repo_url(parts: Seq<Seq<char>>) -> Seq<char> {
    "https://github.com/"@ + parts[0] + "/"@ + github_repo(parts) + ".git"@
}

/// The optional text cleaned by `clean_non_empty_string`.
pub open spec fn clean_opt(o: Option<Seq<char>>) -> Option<Seq<char>> {
    match o {
        Some(t) => clean_text(t),
        None => None,
    }
}

/// The optional path cleaned by `clean_catalog_subpath`.
pub open spec fn subpath_opt(o: Option<Seq<char>>) -> Option<Seq<char>> {
    match o {
        Some(t) => catalog_subpath(t),
        None => None,
    }
}

/// A `tree/<branch>/<path>` or `blob/<branch>/<path>` URL supplies branch and path.
pub open spec fn github_url_names_tree(parts: Seq<Seq<char>>) -> bool {
    parts.len() >= 4 && (parts[2] == "tree"@ || parts[2] == "blob"@)
}

/// Branch of the location: the declared one, else the one in a tree URL.
pub open spec fn github_branch(
    parts: Seq<Seq<char>>,
    branch: Option<Seq<char>>,
    path: Option<Seq<char>>,
) -> Option<Seq<char>> {
    if subpath_opt(path) is None && github_url_names_tree(parts) && clean_opt(branch) is None {
        clean_text(parts[3])
    } else {
        clean_opt(branch)
    }
}

/// Sub-directory of the location: the declared one, else the one in a tree URL.
pub open spec fn github_path(
    parts: Seq<Seq<char>>,
    branch: Option<Seq<char>>,
    path: Option<Seq<char>>,
) -> Option<Seq<char>> {
    if subpath_opt(path) is None && github_url_names_tree(parts) && parts.len() > 4 {
        catalog_subpath(join_with(parts.skip(4), "/"@))
    } else {
        subpath_opt(path)
    }
}

/// The error for a GitHub source that cannot be parsed: a source of another
/// kind, a URL outside `https://github.com/` (raised as a validation error or
/// as a plain one, as the caller chooses), or a URL without owner and
/// repository.
pub open spec fn github_source_error(
    is_github: bool,
    url: Seq<char>,
    not_github_as_validation: bool,
) -> Option<(ErrorKind, Seq<char>)> {
    if !is_github {
        Some((ErrorKind::Validation, "conversation adapter package source must be github"@))
    } else if github_rest(url) is None {
        Some(
            (
                if not_github_as_validation {
                    ErrorKind::Validation
                } else {
                    ErrorKind::Other
                },
                "conversation adapter package source only supports https://github.com URLs"@,
            ),
        )
    } else if !github_has_owner_repo(github_parts(github_rest(url)->0)) {
        Some((ErrorKind::Validation, "GitHub URL must include owner and repository"@))
    } else if github_repo(github_parts(github_rest(url)->0)).len() == 0 {
        Some((ErrorKind::Validation, "GitHub URL must include repository name"@))
    } else {
        None
    }
}

/// Parses a GitHub URL, with an optional declared branch and sub-path, into
/// a clone location; shared by the catalog and the installer.
pub fn parse_github_url(
    is_github: bool,
    url: &str,
    branch: &Option<String>,
    path: &Option<String>,
    not_github_url: bool,
) -> (r: AppResult<GitHubCatalogLocation>)
    ensures
        match r {
            Err(e) => github_source_error(is_github, url@, not_github_url) matches Some(x)
                && error_is(e, x),
            Ok(loc) => github_source_error(is_github, url@, not_github_url) is None && ({
                let parts = github_parts(github_rest(url@)->0);
                &&& loc.repo_url@ == github_repo_url(parts)
                &&& opt_view(loc.branch) == github_branch(
                    parts,
                    opt_view(*branch),
                    opt_view(*path),
                )
                &&& opt_view(loc.path) == github_path(parts, opt_view(*branch), opt_view(*path))
            }),
        },
{
    if !is_github {
        return Err(
            AppError::Validation(
                String::from_str("conversation adapter package source must be github"),
            ),
        );
    }
    let v = chars_of(url);
    let t = trim_vec(&v);
    let t1 = before_char_vec(&t, '#');
    let t2 = before_char_vec(&t1, '?');
    let cleaned = trim_end_char_vec(&t2, '/');
    let prefix = chars_of("https://github.com/");
    if !starts_with_vec(&cleaned, &prefix) {
        let msg = String::from_str(
            "conversation adapter package source only supports https://github.com URLs",
        );
        if not_github_url {
            return Err(AppError::Validation(msg));
        } else {
            return Err(AppError::Other(msg));
        }
    }
    let rest = slice_chars(&cleaned, prefix.len(), cleaned.len());
    assert(rest@ == github_rest(url@)->0);
    let parts = split_vec(&rest, '/');
    if parts.len() < 2 || parts[0].len() == 0 || parts[1].len() == 0 {
        return Err(
            AppError::Validation(String::from_str("GitHub URL must include owner and repository")),
        );
    }
    let git = chars_of(".git");
    let repo = strip_suffix_all_vec(&parts[1], &git);
    if repo.len() == 0 {
        return Err(AppError::Validation(String::from_str("GitHub URL must include repository name")));
    }
    let mut branch_out: Option<String> = match branch {
        Some(b) => clean_non_empty_string(b.as_str()),
        None => None,
    };
    let mut path_out: Option<String> = match path {
        Some(p) => clean_catalog_subpath(p.as_str()),
        None => None,
    };
    let tree = chars_of("tree");
    let blob = chars_of("blob");
    if path_out.is_none() && parts.len() >= 4 && (chars_eq(&parts[2], &tree) || chars_eq(
        &parts[2],
        &blob,
    )) {
        if branch_out.is_none() {
            let p3 = string_of(&parts[3]);
            branch_out = clean_non_empty_string(p3.as_str());
        }
        if parts.len() > 4 {
            let tail = skip_vecs(&parts, 4);
            let slash = chars_of("/");
            let joined = string_of(&join_vec(&tail, &slash));
            path_out = clean_catalog_subpath(joined.as_str());
        }
    }
    let mut repo_url = chars_of("https://github.com/");
    append_chars(&mut repo_url, &parts[0]);
    let slash = chars_of("/");
    append_chars(&mut repo_url, &slash);
    append_chars(&mut repo_url, &repo);
    append_chars(&mut repo_url, &git);
    Ok(GitHubCatalogLocation { repo_url: string_of(&repo_url), branch: branch_out, path: path_out })
}

/// Reads the GitHub repository, branch and sub-directory of a catalog source.
pub fn parse_github_catalog_location(source: &ConversationScriptCatalogSource) -> (r: AppResult<
    GitHubCatalogLocation,
>)
    ensures
        match r {
            Err(e) => github_source_error(
                source.kind == ConversationScriptCatalogSourceKind::Github,
                source.url@,
                false,
            ) matches Some(x) && error_is(e, x),
            Ok(loc) => github_source_error(
                source.kind == ConversationScriptCatalogSourceKind::Github,
                source.url@,
                false,
            ) is None && ({
                let parts = github_parts(github_rest(source.url@)->0);
                &&& loc.repo_url@ == github_repo_url(parts)
                &&& opt_view(loc.branch) == github_branch(
                    parts,
                    opt_view(source.branch),
                    opt_view(source.path),
                )
                &&& opt_view(loc.path) == github_path(
                    parts,
                    opt_view(source.branch),
                    opt_view(source.path),
                )
            }),
        },
{
    parse_github_url(
        source.kind == ConversationScriptCatalogSourceKind::Github,
        source.url.as_str(),
        &source.branch,
        &source.path,
        false,
    )
}

/// Kind of records a catalog item reads.
#[derive(Debug, Clone, Copy, PartialEq, Eq, Structural)]
pub enum ConversationScriptRecordKind {
    Session,
    Web,
}

/// A package offered by the conversation adapter package catalog.
pub struct ConversationScriptCatalogItem {
    pub id: String,
    pub name: String,
    pub version: String,
    pub record_kind: ConversationScriptRecordKind,
    pub provider: Option<String>,
    pub adapter_id: Option<String>,
    pub description: Option<String>,
    pub homepage_url: Option<String>,
    pub repository_url: Option<String>,
    pub tags: Vec<String>,
    pub manifest_file: Option<String>,
    pub package_manifest_file: Option<String>,
    pub expected_content_hash: Option<String>,
    pub expected_package_hash: Option<String>,
    pub expected_artifact_hash: Option<String>,
    pub artifact_size: Option<u64>,
    pub source: ConversationScriptCatalogSource,
}

/// The catalog document.
pub struct ConversationScriptCatalog {
    pub schema_version: u32,
    pub updated_at: Option<String>,
    pub items: Vec<ConversationScriptCatalogItem>,
}

impl ConversationScriptRecordKind {
    /// The package record kind of the same name.
    pub open spec fn package_kind(self) -> ConversationAdapterPackageRecordKind {
        match self {
            ConversationScriptRecordKind::Session => ConversationAdapterPackageRecordKind::Session,
            ConversationScriptRecordKind::Web => ConversationAdapterPackageRecordKind::Web,
        }
    }

    pub fn as_package_record_kind(self) -> (r: ConversationAdapterPackageRecordKind)
        ensures
            r == self.package_kind(),
    {
        match self {
            ConversationScriptRecordKind::Session => ConversationAdapterPackageRecordKind::Session,
            ConversationScriptRecordKind::Web => ConversationAdapterPackageRecordKind::Web,
        }
    }
}

/// The install source kind of the same name.
pub open spec fn install_source_kind(
    k: ConversationScriptCatalogSourceKind,
) -> ConversationAdapterPackageInstallSourceKind {
    match k {
        ConversationScriptCatalogSourceKind::Github => ConversationAdapterPackageInstallSourceKind::Github,
        ConversationScriptCatalogSourceKind::ArtifactZip => ConversationAdapterPackageInstallSourceKind::ArtifactZip,
        ConversationScriptCatalogSourceKind::LocalDirectory => ConversationAdapterPackageInstallSourceKind::LocalDirectory,
    }
}

impl ConversationScriptCatalogItem {
    /// The adapter id the item installs: the declared one, else the package id.
    pub open spec fn spec_adapter_key(&self) -> Seq<char> {
        match self.adapter_id {
            Some(a) => a@,
            None => self.id@,
        }
    }

    /// The spec carries every field of the item unchanged; only the record
    /// and source kinds are mapped onto the package vocabulary.
    pub fn to_install_spec(&self) -> (r: ConversationAdapterPackageInstallSpec)
        ensures
            r.id == self.id,
            r.name == self.name,
            r.version == self.version,
            r.record_kind == self.record_kind.package_kind(),
            r.provider == self.provider,
            r.adapter_id == self.adapter_id,
            r.description == self.description,
            r.homepage_url == self.homepage_url,
            r.repository_url == self.repository_url,
            r.tags@ == self.tags@,
            r.manifest_file == self.manifest_file,
            r.package_manifest_file == self.package_manifest_file,
            r.expected_content_hash == self.expected_content_hash,
            r.expected_package_hash == self.expected_package_hash,
            r.expected_artifact_hash == self.expected_artifact_hash,
            r.artifact_size == self.artifact_size,
            r.source.kind == install_source_kind(self.source.kind),
            r.source.url == self.source.url,
            r.source.branch == self.source.branch,
            r.source.path == self.source.path,
    {
        ConversationAdapterPackageInstallSpec {
            id: self.id.clone(),
            name: self.name.clone(),
            version: self.version.clone(),
            record_kind: self.record_kind.as_package_record_kind(),
            provider: clone_opt(&self.provider),
            adapter_id: clone_opt(&self.adapter_id),
            description: clone_opt(&self.description),
            homepage_url: clone_opt(&self.homepage_url),
            repository_url: clone_opt(&self.repository_url),
            tags: clone_strings(&self.tags),
            manifest_file: clone_opt(&self.manifest_file),
            package_manifest_file: clone_opt(&self.package_manifest_file),
            expected_content_hash: clone_opt(&self.expected_content_hash),
            expected_package_hash: clone_opt(&self.expected_package_hash),
            expected_artifact_hash: clone_opt(&self.expected_artifact_hash),
            artifact_size: self.artifact_size,
            source: ConversationAdapterPackageInstallSource {
                kind: match self.source.kind {
                    ConversationScriptCatalogSourceKind::Github => ConversationAdapterPackageInstallSourceKind::Github,
                    ConversationScriptCatalogSourceKind::ArtifactZip => ConversationAdapterPackageInstallSourceKind::ArtifactZip,
                    ConversationScriptCatalogSourceKind::LocalDirectory => ConversationAdapterPackageInstallSourceKind::LocalDirectory,
                },
                url: self.source.url.clone(),
                branch: clone_opt(&self.source.branch),
                path: clone_opt(&self.source.path),
            },
        }
    }

    pub fn package_id(&self) -> (r: &str)
        ensures
            r@ == self.id@,
    {
        self.id.as_str()
    }

    pub fn adapter_key(&self) -> (r: &str)
        ensures
            r@ == self.spec_adapter_key(),
    {
        match &self.adapter_id {
            Some(a) => a.as_str(),
            None => self.id.as_str(),
        }
    }

    /// The declared adapter manifest file, else `conversation-adapter.json`.
    pub open spec fn spec_manifest_file(&self) -> Seq<char> {
        match self.manifest_file {
            Some(f) => f@,
            None => "conversation-adapter.json"@,
        }
    }

    /// The declared package manifest file, else `conversation-adapter-package.json`.
    pub open spec fn spec_package_manifest_file(&self) -> Seq<char> {
        match self.package_manifest_file {
            Some(f) => f@,
            None => "conversation-adapter-package.json"@,
        }
    }

    pub fn manifest_file_name(&self) -> (r: AppResult<String>)
        ensures
            r is Ok <==> !unsafe_file_name(relative_file_name(self.spec_manifest_file())),
            r matches Ok(t) ==> t@ == relative_file_name(self.spec_manifest_file()),
            r matches Err(e) ==> e is Validation && e->Validation_0@
                == "manifest_file must be a file name: "@ + self.spec_manifest_file(),
    {
        match &self.manifest_file {
            Some(f) => clean_relative_file_name(f.as_str()),
            None => clean_relative_file_name("conversation-adapter.json"),
        }
    }

    pub fn package_manifest_file_name(&self) -> (r: AppResult<String>)
        ensures
            r is Ok <==> !unsafe_file_name(relative_file_name(self.spec_package_manifest_file())),
            r matches Ok(t) ==> t@ == relative_file_name(self.spec_package_manifest_file()),
            r matches Err(e) ==> e is Validation && e->Validation_0@
                == "manifest_file must be a file name: "@ + self.spec_package_manifest_file(),
    {
        match &self.package_manifest_file {
            Some(f) => clean_relative_file_name(f.as_str()),
            None => clean_relative_file_name("conversation-adapter-package.json"),
        }
    }
}

/// The trimmed version when `semver` accepts it; else a validation error
/// with the parser's message.
pub fn validated_package_version(value: &str) -> (r: AppResult<String>)
    ensures
        r is Ok <==> semver_valid(trim(value@)),
        r matches Ok(t) ==> t@ == trim(value@),
        r matches Err(e) ==> e is Validation && e->Validation_0@
            == "conversation adapter package version must be SemVer: "@ + semver_parse_error(
            trim(value@),
        )->0,
{
    let t = trim_str(value);
    match parse_semver(t.as_str()) {
        Ok(v) => Ok(v),
        Err(m) => Err(AppError::Validation(message_with(
            "conversation adapter package version must be SemVer: ",
            m.as_str(),
        ))),
    }
}

/// Characters allowed in a catalog package id.
pub open spec fn catalog_id_char(c: char) -> bool {
    ('a' <= c && c <= 'z') || ('0' <= c && c <= '9') || c == '-' || c == '_' || c == '.'
}

/// A package id usable as one path segment: only `[a-z0-9._-]`, and neither
/// `.` nor `..`. (Such an id has no separator, so it is a single path
/// component exactly when it is not empty.)
pub open spec fn safe_catalog_id(id: Seq<char>) -> bool {
    &&& id.len() > 0
    &&& id != "."@
    &&& id != ".."@
    &&& forall|i: int| 0 <= i < id.len() ==> catalog_id_char(#[trigger] id[i])
}

pub fn all_catalog_id_chars(v: &[char]) -> (r: bool)
    ensures
        r == (forall|i: int| 0 <= i < v@.len() ==> catalog_id_char(#[trigger] v@[i])),
{
    let mut i: usize = 0;
    while i < v.len()
        invariant
            i <= v.len(),
            forall|j: int| 0 <= j < i ==> catalog_id_char(#[trigger] v@[j]),
        decreases v.len() - i,
    {
        let c = v[i];
        if !(('a' <= c && c <= 'z') || ('0' <= c && c <= '9') || c == '-' || c == '_' || c == '.') {
            return false;
        }
        i = i + 1;
    }
    true
}

/// The first problem `validate_conversation_script_catalog_item` reports.
pub open spec fn catalog_item_problem(item: &ConversationScriptCatalogItem) -> Option<(ErrorKind, Seq<char>)> {
    let id = item.id@;
    if trim(id).len() == 0 {
        Some((ErrorKind::Validation, "conversation adapter package catalog item id is required"@))
    } else if !safe_catalog_id(id) {
        Some(
            (
                ErrorKind::Validation,
                "conversation adapter package catalog item id must be a safe path segment: "@ + id,
            ),
        )
    } else if trim(item.name@).len() == 0 {
        Some((ErrorKind::Validation, "conversation adapter package catalog item name is required: "@ + id))
    } else if trim(item.version@).len() == 0 {
        Some(
            (ErrorKind::Validation, "conversation adapter package catalog item version is required: "@ + id),
        )
    } else if !semver_valid(trim(item.version@)) {
        Some(
            (
                ErrorKind::Validation,
                "conversation adapter package version must be SemVer: "@ + semver_parse_error(
                    trim(item.version@),
                )->0,
            ),
        )
    } else if item.adapter_id is Some && trim(item.adapter_id->0@).len() == 0 {
        Some(
            (
                ErrorKind::Validation,
                "conversation adapter package catalog item adapter_id must not be empty: "@ + id,
            ),
        )
    } else if unsafe_file_name(relative_file_name(item.spec_manifest_file())) {
        Some((ErrorKind::Validation, "manifest_file must be a file name: "@ + item.spec_manifest_file()))
    } else if unsafe_file_name(relative_file_name(item.spec_package_manifest_file())) {
        Some(
            (
                ErrorKind::Validation,
                "manifest_file must be a file name: "@ + item.spec_package_manifest_file(),
            ),
        )
    } else {
        github_source_error(
            item.source.kind == ConversationScriptCatalogSourceKind::Github,
            item.source.url@,
            false,
        )
    }
}

/// Checks a catalog item: safe id, name, SemVer version, adapter id, manifest
/// file names and a parseable GitHub source.
pub fn validate_conversation_script_catalog_item(item: &ConversationScriptCatalogItem) -> (r:
    AppResult<()>)
    ensures
        match catalog_item_problem(item) {
            None => r is Ok,
            Some(x) => r matches Err(e) && error_is(e, x),
        },
{
    let id = chars_of(item.id.as_str());
    let tid = trim_vec(&id);
    if tid.len() == 0 {
        return Err(AppError::Validation(String::from_str(
            "conversation adapter package catalog item id is required",
        )));
    }
    let dot = chars_of(".");
    let dotdot = chars_of("..");
    if chars_eq(&id, &dot) || chars_eq(&id, &dotdot) || id.len() == 0 || !all_catalog_id_chars(&id) {
        return Err(AppError::Validation(message_with(
            "conversation adapter package catalog item id must be a safe path segment: ",
            item.id.as_str(),
        )));
    }
    let name = trim_str(item.name.as_str());
    if name.unicode_len() == 0 {
        return Err(AppError::Validation(message_with(
            "conversation adapter package catalog item name is required: ",
            item.id.as_str(),
        )));
    }
    let version = trim_str(item.version.as_str());
    if version.unicode_len() == 0 {
        return Err(AppError::Validation(message_with(
            "conversation adapter package catalog item version is required: ",
            item.id.as_str(),
        )));
    }
    validated_package_version(item.version.as_str())?;
    if let Some(adapter_id) = &item.adapter_id {
        let a = trim_str(adapter_id.as_str());
        if a.unicode_len() == 0 {
            return Err(AppError::Validation(message_with(
                "conversation adapter package catalog item adapter_id must not be empty: ",
                item.id.as_str(),
            )));
        }
    }
    item.manifest_file_name()?;
    item.package_manifest_file_name()?;
    parse_github_catalog_location(&item.source)?;
    Ok(())
}

/// Item `i` repeats the id of an earlier item.
pub open spec fn repeats_earlier_id(items: Seq<ConversationScriptCatalogItem>, i: int) -> bool {
    exists|j: int| 0 <= j < i && items[j].id@ == items[i].id@
}

/// Item `i` is refused: it is invalid or repeats an earlier id.
pub open spec fn catalog_item_refused(items: Seq<ConversationScriptCatalogItem>, i: int) -> bool {
    catalog_item_problem(&items[i]) is Some || repeats_earlier_id(items, i)
}

/// The error a refused item `i` raises: its own problem, else a duplicate.
pub open spec fn catalog_item_error(items: Seq<ConversationScriptCatalogItem>, i: int) -> (ErrorKind, Seq<char>) {
    match catalog_item_problem(&items[i]) {
        Some(p) => p,
        None => (ErrorKind::Validation, "duplicate conversation adapter package catalog item: "@ + items[i].id@),
    }
}

/// Whether item `j` appears before `i` with the same id.
pub fn has_earlier_id(items: &Vec<ConversationScriptCatalogItem>, i: usize) -> (r: bool)
    requires
        i < items@.len(),
    ensures
        r == repeats_earlier_id(items@, i as int),
{
    let mut j: usize = 0;
    while j < i
        invariant
            j <= i < items@.len(),
            forall|k: int| 0 <= k < j ==> items@[k].id@ != items@[i as int].id@,
        decreases i - j,
    {
        if items[j].id == items[i].id {
            return true;
        }
        j = j + 1;
    }
    false
}

/// Checks the catalog schema and every item in order; the first invalid
/// item, or the first item that repeats an id, is reported.
pub fn validate_conversation_script_catalog(catalog: &ConversationScriptCatalog) -> (r: AppResult<()>)
    ensures
        r is Ok <==> (catalog.schema_version == 1 && forall|i: int|
            0 <= i < catalog.items@.len() ==> !catalog_item_refused(catalog.items@, i)),
        r matches Err(e) ==> (catalog.schema_version != 1 && error_is(
            e,
            (ErrorKind::Validation, "conversation adapter package catalog schema_version must be 1"@),
        )) || (catalog.schema_version == 1 && exists|i: int|
            0 <= i < catalog.items@.len() && catalog_item_refused(catalog.items@, i) && (forall|
                j: int,
            | 0 <= j < i ==> !catalog_item_refused(catalog.items@, j)) && error_is(
                e,
                catalog_item_error(catalog.items@, i),
            )),
{
    if catalog.schema_version != 1 {
        return Err(AppError::Validation(String::from_str(
            "conversation adapter package catalog schema_version must be 1",
        )));
    }
    let mut i: usize = 0;
    while i < catalog.items.len()
        invariant
            catalog.schema_version == 1,
            i <= catalog.items@.len(),
            forall|j: int| 0 <= j < i ==> !catalog_item_refused(catalog.items@, j),
        decreases catalog.items.len() - i,
    {
        let item = &catalog.items[i];
        match validate_conversation_script_catalog_item(item) {
            Err(e) => {
                assert(catalog_item_refused(catalog.items@, i as int));
                return Err(e);
            },
            Ok(()) => {},
        }
        if has_earlier_id(&catalog.items, i) {
            assert(catalog_item_refused(catalog.items@, i as int));
            return Err(AppError::Validation(message_with(
                "duplicate conversation adapter package catalog item: ",
                item.id.as_str(),
            )));
        }
        i = i + 1;
    }
    Ok(())
}

/// What a package change would touch, computed before it runs.
pub struct ConversationAdapterPackageChangePreflight {
    pub action: ConversationAdapterPackageChangeAction,
    pub origin: ConversationAdapterPackageOrigin,
    pub package_id: Option<String>,
    pub adapter_id: Option<String>,
    pub managed_paths: Vec<String>,
    pub affected_sources: Vec<ConversationSource>,
    pub task_conflicts: Vec<String>,
    pub preserves_conversation_records: bool,
    pub risk: ConversationAdapterPackageChangeRisk,
    pub confirmation_required: bool,
}

/// Label of a package origin.
pub open spec fn origin_label(origin: ConversationAdapterPackageOrigin) -> Seq<char> {
    match origin {
        ConversationAdapterPackageOrigin::BuiltIn => "built_in"@,
        ConversationAdapterPackageOrigin::ManagedRelease => "managed_release"@,
        ConversationAdapterPackageOrigin::LocalDirectory => "local_directory"@,
        ConversationAdapterPackageOrigin::GitRef => "git_ref"@,
        ConversationAdapterPackageOrigin::LegacyExternal => "legacy_external"@,
        ConversationAdapterPackageOrigin::DevOverride => "dev_override"@,
    }
}

pub fn package_origin_label(origin: ConversationAdapterPackageOrigin) -> (r: &'static str)
    ensures
        r@ == origin_label(origin),
{
    match origin {
        ConversationAdapterPackageOrigin::BuiltIn => "built_in",
        ConversationAdapterPackageOrigin::ManagedRelease => "managed_release",
        ConversationAdapterPackageOrigin::LocalDirectory => "local_directory",
        ConversationAdapterPackageOrigin::GitRef => "git_ref",
        ConversationAdapterPackageOrigin::LegacyExternal => "legacy_external",
        ConversationAdapterPackageOrigin::DevOverride => "dev_override",
    }
}

/// The origin of an adapter that has no package record: built-in adapters
/// are built in, everything else is a legacy external adapter.
pub fn infer_unmanaged_adapter_origin(adapter: Option<&ConversationAdapter>) -> (r:
    ConversationAdapterPackageOrigin)
    ensures
        r == (if adapter is Some && adapter->0.trust_state == ConversationAdapterTrustState::BuiltIn {
            ConversationAdapterPackageOrigin::BuiltIn
        } else {
            ConversationAdapterPackageOrigin::LegacyExternal
        }),
{
    match adapter {
        Some(a) => match a.trust_state {
            ConversationAdapterTrustState::BuiltIn => ConversationAdapterPackageOrigin::BuiltIn,
            _ => ConversationAdapterPackageOrigin::LegacyExternal,
        },
        None => ConversationAdapterPackageOrigin::LegacyExternal,
    }
}

/// Views of a list of texts.
pub open spec fn string_views(v: Seq<String>) -> Seq<Seq<char>> {
    v.map_values(|x: String| x@)
}

/// Texts joined with a separator.
pub fn join_strings(v: &Vec<String>, sep: &str) -> (r: String)
    ensures
        r@ == join_with(string_views(v@), sep@),
{
    let mut parts: Vec<Vec<char>> = Vec::new();
    let mut i: usize = 0;
    while i < v.len()
        invariant
            i <= v@.len(),
            views(parts@) == string_views(v@).take(i as int),
        decreases v.len() - i,
    {
        let c = chars_of(v[i].as_str());
        proof {
            assert(views(parts@.push(c)) =~= views(parts@).push(c@));
            assert(string_views(v@).take(i + 1) =~= string_views(v@).take(i as int).push(
                v@[i as int]@,
            ));
        }
        parts.push(c);
        i = i + 1;
    }
    assert(string_views(v@).take(v@.len() as int) =~= string_views(v@));
    let s = chars_of(sep);
    string_of(&join_vec(&parts, &s))
}

/// A change may not run while tasks that use the adapter are running.
pub fn reject_conversation_package_task_conflicts(
    preflight: &ConversationAdapterPackageChangePreflight,
) -> (r: AppResult<()>)
    ensures
        r is Ok <==> preflight.task_conflicts@.len() == 0,
        r matches Err(e) ==> e is Conflict && e->Conflict_0@
            == "conversation adapter package change conflicts with running tasks: "@ + join_with(
            string_views(preflight.task_conflicts@),
            ", "@,
        ),
{
    if preflight.task_conflicts.len() == 0 {
        Ok(())
    } else {
        let list = join_strings(&preflight.task_conflicts, ", ");
        Err(AppError::Conflict(message_with(
            "conversation adapter package change conflicts with running tasks: ",
            list.as_str(),
        )))
    }
}

/// The runtime gate status an installed package's validation error maps to.
pub open spec fn gate_status_for_error(error: Seq<char>) -> ConversationAdapterRuntimeGateStatus {
    if contains_sub(error, "hash mismatch"@) || contains_sub(error, "no trusted hash"@) {
        ConversationAdapterRuntimeGateStatus::HashMismatch
    } else if contains_sub(error, "requires AssetIWeave core"@) {
        ConversationAdapterRuntimeGateStatus::CoreIncompatible
    } else if contains_sub(error, "root is not a directory"@) || contains_sub(
        error,
        "runtime is not registered"@,
    ) {
        ConversationAdapterRuntimeGateStatus::RuntimeMissing
    } else {
        ConversationAdapterRuntimeGateStatus::ManifestInvalid
    }
}

/// Whether the text contains the literal.
pub fn str_contains(s: &str, p: &str) -> (r: bool)
    ensures
        r == contains_sub(s@, p@),
{
    let a = chars_of(s);
    let b = chars_of(p);
    contains_vec(&a, &b)
}

/// Maps a runtime validation error message onto the repair state it calls for.
pub fn classify_runtime_gate_error(_install_dir: &str, error: &str) -> (r:
    ConversationAdapterRuntimeGateStatus)
    ensures
        r == gate_status_for_error(error@),
{
    if str_contains(error, "hash mismatch") || str_contains(error, "no trusted hash") {
        ConversationAdapterRuntimeGateStatus::HashMismatch
    } else if str_contains(error, "requires AssetIWeave core") {
        ConversationAdapterRuntimeGateStatus::CoreIncompatible
    } else if str_contains(error, "root is not a directory") || str_contains(
        error,
        "runtime is not registered",
    ) {
        ConversationAdapterRuntimeGateStatus::RuntimeMissing
    } else {
        ConversationAdapterRuntimeGateStatus::ManifestInvalid
    }
}

/// The message for a package whose runtime is not ready.
pub open spec fn not_ready_message(package: &ConversationAdapterPackage) -> Seq<char> {
    "conversation adapter package runtime is not ready: "@ + package.package_id@ + match package.error_message {
        Some(m) => ": "@ + m@,
        None => Seq::empty(),
    }
}

pub fn format_package_not_ready_error(package: &ConversationAdapterPackage) -> (r: String)
    ensures
        r@ == not_ready_message(package),
{
    let mut r = message_with(
        "conversation adapter package runtime is not ready: ",
        package.package_id.as_str(),
    );
    if let Some(m) = &package.error_message {
        r.append(": ");
        r.append(m.as_str());
    }
    r
}

/// Order of installed versions: by installation time, then by version text.
pub open spec fn installed_order(
    a: ConversationAdapterPackageVersion,
    b: ConversationAdapterPackageVersion,
) -> int {
    if lex_order(a.installed_at@, b.installed_at@) != 0 {
        lex_order(a.installed_at@, b.installed_at@)
    } else {
        lex_order(a.version@, b.version@)
    }
}

pub proof fn lemma_installed_order_props(
    a: ConversationAdapterPackageVersion,
    b: ConversationAdapterPackageVersion,
    c: ConversationAdapterPackageVersion,
)
    ensures
        installed_order(a, b) == -installed_order(b, a),
        (installed_order(a, b) <= 0 && installed_order(b, c) <= 0) ==> installed_order(a, c) <= 0,
        (installed_order(a, b) <= 0 && installed_order(b, c) < 0) ==> installed_order(a, c) < 0,
        (installed_order(a, b) < 0 && installed_order(b, c) <= 0) ==> installed_order(a, c) < 0,
{
    lemma_lex_antisym(a.installed_at@, b.installed_at@);
    lemma_lex_antisym(a.version@, b.version@);
    lemma_lex_zero(a.installed_at@, b.installed_at@);
    lemma_lex_zero(b.installed_at@, c.installed_at@);
    lemma_lex_zero(a.installed_at@, c.installed_at@);
    if lex_order(a.installed_at@, b.installed_at@) <= 0 && lex_order(b.installed_at@, c.installed_at@)
        <= 0 {
        lemma_lex_trans(a.installed_at@, b.installed_at@, c.installed_at@);
    }
    if lex_order(a.version@, b.version@) <= 0 && lex_order(b.version@, c.version@) <= 0 {
        lemma_lex_trans(a.version@, b.version@, c.version@);
    }
}

/// Version `i` may be rolled back to: it is not the active version.
pub open spec fn rollback_candidate(
    versions: Seq<ConversationAdapterPackageVersion>,
    active: Seq<char>,
    i: int,
) -> bool {
    0 <= i < versions.len() && versions[i].version@ != active
}

/// The rollback target: the most recently installed inactive version (by
/// installation time, then version text; the last of equal ones).
pub fn select_rollback_version<'a>(
    versions: &'a [ConversationAdapterPackageVersion],
    active_version: &str,
) -> (r: Option<&'a ConversationAdapterPackageVersion>)
    ensures
        r is None <==> (forall|i: int| !rollback_candidate(versions@, active_version@, i)),
        r matches Some(v) ==> exists|i: int|
            rollback_candidate(versions@, active_version@, i) && *v == versions@[i] && (forall|
                j: int,
            | #[trigger] rollback_candidate(versions@, active_version@, j) ==> installed_order(
                versions@[j],
                versions@[i],
            ) <= 0) && (forall|j: int|
                i < j && #[trigger] rollback_candidate(versions@, active_version@, j)
                    ==> installed_order(versions@[j], versions@[i]) < 0),
{
    let active = chars_of(active_version);
    let mut best: Option<usize> = None;
    let mut k: usize = 0;
    while k < versions.len()
        invariant
            k <= versions@.len(),
            active@ == active_version@,
            best is None ==> forall|i: int| 0 <= i < k ==> !rollback_candidate(
                versions@,
                active_version@,
                i,
            ),
            best matches Some(b) ==> b < k && rollback_candidate(versions@, active_version@, b as int)
                && (forall|j: int|
                0 <= j < k && #[trigger] rollback_candidate(versions@, active_version@, j)
                    ==> installed_order(versions@[j], versions@[b as int]) <= 0) && (forall|j: int|
                b < j < k && #[trigger] rollback_candidate(versions@, active_version@, j)
                    ==> installed_order(versions@[j], versions@[b as int]) < 0),
        decreases versions.len() - k,
    {
        let v = chars_of(versions[k].version.as_str());
        if !chars_eq(&v, &active) {
            match best {
                None => {
                    proof {
                        lemma_lex_zero(versions@[k as int].installed_at@, versions@[k as int].installed_at@);
                        lemma_lex_zero(versions@[k as int].version@, versions@[k as int].version@);
                    }
                    best = Some(k);
                },
                Some(b) => {
                    let ia = chars_of(versions[b].installed_at.as_str());
                    let ib = chars_of(versions[k].installed_at.as_str());
                    let c1 = lex_compare(&ia, &ib);
                    let c = if c1 != 0 {
                        c1
                    } else {
                        let va = chars_of(versions[b].version.as_str());
                        let vb = chars_of(versions[k].version.as_str());
                        lex_compare(&va, &vb)
                    };
                    assert(c as int == installed_order(versions@[b as int], versions@[k as int]));
                    if c <= 0 {
                        proof {
                            assert forall|j: int|
                                0 <= j < k + 1 && #[trigger] rollback_candidate(
                                    versions@,
                                    active_version@,
                                    j,
                                ) implies installed_order(versions@[j], versions@[k as int]) <= 0 by {
                                lemma_installed_order_props(
                                    versions@[j],
                                    versions@[b as int],
                                    versions@[k as int],
                                );
                                lemma_installed_order_props(
                                    versions@[k as int],
                                    versions@[k as int],
                                    versions@[k as int],
                                );
                                lemma_lex_zero(
                                    versions@[k as int].installed_at@,
                                    versions@[k as int].installed_at@,
                                );
                                lemma_lex_zero(versions@[k as int].version@, versions@[k as int].version@);
                            }
                        }
                        best = Some(k);
                    } else {
                        proof {
                            lemma_installed_order_props(
                                versions@[k as int],
                                versions@[b as int],
                                versions@[k as int],
                            );
                        }
                    }
                },
            }
        }
        k = k + 1;
    }
    match best {
        Some(b) => Some(&versions[b]),
        None => None,
    }
}

/// Status label of a catalog entry when the package's runtime is not ready.
pub open spec fn gate_label(status: ConversationAdapterRuntimeGateStatus) -> Seq<char> {
    match status {
        ConversationAdapterRuntimeGateStatus::RuntimeMissing => "runtime_missing"@,
        ConversationAdapterRuntimeGateStatus::HashMismatch => "hash_mismatch"@,
        ConversationAdapterRuntimeGateStatus::ManifestInvalid => "manifest_invalid"@,
        ConversationAdapterRuntimeGateStatus::CoreIncompatible => "core_incompatible"@,
        ConversationAdapterRuntimeGateStatus::Ready => "verification_failed"@,
    }
}

/// The status label of a catalog entry.
pub open spec fn package_status(
    installed: bool,
    package: Option<&ConversationAdapterPackage>,
    update_available: bool,
    ahead_of_release: bool,
    runtime_ready: bool,
    adapter: Option<&ConversationAdapter>,
) -> Seq<char> {
    if !installed {
        "not_installed"@
    } else if package is Some && package->0.origin == ConversationAdapterPackageOrigin::ManagedRelease
        && adapter is None {
        "uninstalled"@
    } else if package is Some && !package->0.runtime_ready {
        gate_label(package->0.runtime_gate_status)
    } else if package is Some && package->0.origin == ConversationAdapterPackageOrigin::LocalDirectory {
        "local_registered"@
    } else if package is Some && package->0.origin == ConversationAdapterPackageOrigin::GitRef {
        "git_registered"@
    } else if package is Some && package->0.origin == ConversationAdapterPackageOrigin::DevOverride {
        "dev_override"@
    } else if package is Some && package->0.origin == ConversationAdapterPackageOrigin::BuiltIn {
        "built_in"@
    } else if package is None && adapter is Some && adapter->0.trust_state
        == ConversationAdapterTrustState::BuiltIn {
        if runtime_ready {
            "built_in"@
        } else {
            "uninstalled"@
        }
    } else if package is None && adapter is Some {
        "legacy_installed"@
    } else if update_available {
        "update_available"@
    } else if ahead_of_release {
        "ahead_of_release"@
    } else if runtime_ready {
        "installed"@
    } else {
        "verification_failed"@
    }
}

/// Classifies a catalog entry from its installation state.
pub fn conversation_adapter_package_status(
    installed: bool,
    package: Option<&ConversationAdapterPackage>,
    update_available: bool,
    ahead_of_release: bool,
    runtime_ready: bool,
    adapter: Option<&ConversationAdapter>,
) -> (r: String)
    ensures
        r@ == package_status(
            installed,
            package,
            update_available,
            ahead_of_release,
            runtime_ready,
            adapter,
        ),
{
    if !installed {
        return String::from_str("not_installed");
    }
    if let Some(package) = package {
        if package.origin == ConversationAdapterPackageOrigin::ManagedRelease && adapter.is_none() {
            return String::from_str("uninstalled");
        }
        if !package.runtime_ready {
            return String::from_str(
                match package.runtime_gate_status {
                    ConversationAdapterRuntimeGateStatus::RuntimeMissing => "runtime_missing",
                    ConversationAdapterRuntimeGateStatus::HashMismatch => "hash_mismatch",
                    ConversationAdapterRuntimeGateStatus::ManifestInvalid => "manifest_invalid",
                    ConversationAdapterRuntimeGateStatus::CoreIncompatible => "core_incompatible",
                    ConversationAdapterRuntimeGateStatus::Ready => "verification_failed",
                },
            );
        }
        match package.origin {
            ConversationAdapterPackageOrigin::LocalDirectory => {
                return String::from_str("local_registered");
            },
            ConversationAdapterPackageOrigin::GitRef => {
                return String::from_str("git_registered");
            },
            ConversationAdapterPackageOrigin::DevOverride => {
                return String::from_str("dev_override");
            },
            ConversationAdapterPackageOrigin::BuiltIn => {
                return String::from_str("built_in");
            },
            ConversationAdapterPackageOrigin::ManagedRelease
            | ConversationAdapterPackageOrigin::LegacyExternal => {},
        }
    } else if adapter.is_some() && adapter.unwrap().trust_state
        == ConversationAdapterTrustState::BuiltIn {
        return String::from_str(
            if runtime_ready {
                "built_in"
            } else {
                "uninstalled"
            },
        );
    } else if adapter.is_some() {
        return String::from_str("legacy_installed");
    }
    if update_available {
        return String::from_str("update_available");
    }
    if ahead_of_release {
        return String::from_str("ahead_of_release");
    }
    if runtime_ready {
        String::from_str("installed")
    } else {
        String::from_str("verification_failed")
    }
}

/// An installed managed-release package whose adapter is present, whose
/// runtime is ready and which has neither an update available nor is ahead
/// of its release is listed as `installed`; an update or a newer local
/// version takes precedence in that order. `verification_failed` is only
/// ever given to an entry whose runtime is not ready.
pub proof fn law_ready_managed_package_is_installed(
    installed: bool,
    package: Option<&ConversationAdapterPackage>,
    update_available: bool,
    ahead_of_release: bool,
    runtime_ready: bool,
    adapter: Option<&ConversationAdapter>,
)
    ensures
        ({
            let s = package_status(installed, package, update_available, ahead_of_release, runtime_ready, adapter);
            &&& (installed && package is Some && package->0.origin == ConversationAdapterPackageOrigin::ManagedRelease
                && package->0.runtime_ready && adapter is Some) ==> s == if update_available {
                "update_available"@
            } else if ahead_of_release {
                "ahead_of_release"@
            } else if runtime_ready {
                "installed"@
            } else {
                "verification_failed"@
            }
            &&& s == "verification_failed"@ ==> (!runtime_ready || (package is Some && !package->0.runtime_ready))
            &&& s == "installed"@ ==> (installed && runtime_ready && !update_available && !ahead_of_release)
        }),
{
    reveal_strlit("not_installed");
    reveal_strlit("uninstalled");
    reveal_strlit("runtime_missing");
    reveal_strlit("hash_mismatch");
    reveal_strlit("manifest_invalid");
    reveal_strlit("core_incompatible");
    reveal_strlit("verification_failed");
    reveal_strlit("local_registered");
    reveal_strlit("git_registered");
    reveal_strlit("dev_override");
    reveal_strlit("built_in");
    reveal_strlit("legacy_installed");
    reveal_strlit("update_available");
    reveal_strlit("ahead_of_release");
    reveal_strlit("installed");
    assert("verification_failed"@.len() == 19);
    assert("installed"@.len() == 9);
    assert("not_installed"@.len() == 13);
    assert("uninstalled"@.len() == 11);
    assert("runtime_missing"@.len() == 15);
    assert("hash_mismatch"@.len() == 13);
    assert("manifest_invalid"@.len() == 16);
    assert("core_incompatible"@.len() == 17);
    assert("local_registered"@.len() == 16);
    assert("git_registered"@.len() == 14);
    assert("dev_override"@.len() == 12);
    assert("built_in"@.len() == 8);
    assert("legacy_installed"@.len() == 16);
    assert("update_available"@.len() == 16);
    assert("ahead_of_release"@.len() == 16);
}

/// The text with trailing `/` and `\` removed.
pub open spec fn trim_end_separators(s: Seq<char>) -> Seq<char>
    decreases s.len(),
{
    if s.len() > 0 && (s.last() == '/' || s.last() == '\\') {
        trim_end_separators(s.drop_last())
    } else {
        s
    }
}

pub fn trim_end_separators_vec(v: &[char]) -> (r: Vec<char>)
    ensures
        r@ == trim_end_separators(v@),
{
    let mut b: usize = v.len();
    assert(v@.take(v@.len() as int) =~= v@);
    while b > 0 && (v[b - 1] == '/' || v[b - 1] == '\\')
        invariant
            b <= v.len(),
            trim_end_separators(v@.take(b as int)) == trim_end_separators(v@),
        decreases b,
    {
        assert(v@.take(b as int).drop_last() =~= v@.take(b - 1));
        b = b - 1;
    }
    assert(v@.subrange(0, b as int) =~= v@.take(b as int));
    slice_chars(v, 0, b)
}

/// The adapter manifest path shown for a catalog entry.
pub open spec fn catalog_manifest_path(
    package: Option<&ConversationAdapterPackage>,
    adapter: Option<&ConversationAdapter>,
    install_path: Option<Seq<char>>,
    manifest_file: Option<Seq<char>>,
) -> Option<Seq<char>> {
    if package is Some {
        Some(package->0.adapter_manifest_path@)
    } else if adapter is Some && adapter->0.manifest_path is Some {
        Some(adapter->0.manifest_path->0@)
    } else if install_path is Some {
        Some(trim_end_separators(install_path->0) + "/"@ + (if manifest_file is Some && trim(
            manifest_file->0,
        ).len() > 0 {
            trim(manifest_file->0)
        } else {
            "conversation-adapter.json"@
        }))
    } else {
        None
    }
}

pub fn conversation_catalog_manifest_path(
    package: Option<&ConversationAdapterPackage>,
    adapter: Option<&ConversationAdapter>,
    install_path: Option<&str>,
    manifest_file: Option<&str>,
) -> (r: Option<String>)
    ensures
        opt_view(r) == catalog_manifest_path(
            package,
            adapter,
            match install_path {
                Some(p) => Some(p@),
                None => None,
            },
            match manifest_file {
                Some(m) => Some(m@),
                None => None,
            },
        ),
{
    if let Some(p) = package {
        return Some(p.adapter_manifest_path.clone());
    }
    if let Some(a) = adapter {
        if let Some(m) = &a.manifest_path {
            return Some(m.clone());
        }
    }
    match install_path {
        Some(install_path) => {
            let base = trim_end_separators_vec(&chars_of(install_path));
            let mut out = base;
            let slash = chars_of("/");
            append_chars(&mut out, &slash);
            let file = match manifest_file {
                Some(m) => {
                    let t = trim_vec(&chars_of(m));
                    if t.len() > 0 {
                        t
                    } else {
                        chars_of("conversation-adapter.json")
                    }
                },
                None => chars_of("conversation-adapter.json"),
            };
            append_chars(&mut out, &file);
            Some(string_of(&out))
        },
        None => None,
    }
}

/// The first eight characters of a random UUID: eight lower-case
/// hexadecimal digits.
pub fn short_uuid() -> (r: String)
    ensures
        r@.len() == 8,
        forall|i: int| 0 <= i < 8 ==> crate::ids::is_lower_hex_digit(#[trigger] r@[i]),
{
    let id = chars_of(new_uuid_text().as_str());
    let r = string_of(&slice_chars(&id, 0, 8));
    assert forall|i: int| 0 <= i < 8 implies crate::ids::is_lower_hex_digit(#[trigger] r@[i]) by {
        assert(r@[i] == id@[i]);
        assert(i != 8 && i != 13 && i != 18 && i != 23);
    }
    r
}

/// The manifest path of a replacement version: the previous manifest's file
/// name (or the fallback when it has none) inside the replacement directory.
pub open spec fn replacement_path(install_dir: Seq<char>, previous: Seq<char>, fallback: Seq<char>) -> Seq<char> {
    let name = match file_name(previous) {
        Some(n) => if n.len() > 0 {
            n
        } else {
            fallback
        },
        None => fallback,
    };
    join(install_dir, name)
}

pub fn replacement_manifest_path(install_dir: &str, previous_path: &str, fallback: &str) -> (r:
    String)
    ensures
        r@ == replacement_path(install_dir@, previous_path@, fallback@),
{
    let name = match path_file_name(&chars_of(previous_path)) {
        Some(n) => if n.len() > 0 {
            n
        } else {
            chars_of(fallback)
        },
        None => chars_of(fallback),
    };
    string_of(&join_path(&chars_of(install_dir), &name))
}

/// The package record once an inactive version replaces an uninstalled
/// active one: that version, its directory, manifests rebased into it, and
/// its content hash as both installed and trusted hash.
pub fn package_for_uninstalled_replacement(
    package: &ConversationAdapterPackage,
    replacement: &ConversationAdapterPackageVersion,
) -> (r: ConversationAdapterPackage)
    ensures
        r.version == replacement.version,
        r.install_dir == replacement.install_dir,
        r.manifest_path@ == replacement_path(
            replacement.install_dir@,
            package.manifest_path@,
            "conversation-adapter-package.json"@,
        ),
        r.adapter_manifest_path@ == replacement_path(
            replacement.install_dir@,
            package.adapter_manifest_path@,
            "conversation-adapter.json"@,
        ),
        r.installed_content_hash == Some(replacement.content_hash),
        r.trusted_package_hash == Some(replacement.content_hash),
        r.package_id == package.package_id,
        r.adapter_id == package.adapter_id,
        r.name == package.name,
        r.record_kind == package.record_kind,
        r.runtime_protocol == package.runtime_protocol,
        r.runtime_ready == package.runtime_ready,
        r.origin == package.origin,
        r.source_url == package.source_url,
        r.git_ref == package.git_ref,
        r.git_commit == package.git_commit,
        r.catalog_url == package.catalog_url,
        r.update_policy == package.update_policy,
        r.latest_version == package.latest_version,
        r.last_checked_at == package.last_checked_at,
        r.runtime_gate_status == package.runtime_gate_status,
        r.runtime_validated_at == package.runtime_validated_at,
        r.error_message == package.error_message,
        r.created_at == package.created_at,
{
    let mut r = package.duplicate();
    r.version = replacement.version.clone();
    r.install_dir = replacement.install_dir.clone();
    r.manifest_path = replacement_manifest_path(
        replacement.install_dir.as_str(),
        package.manifest_path.as_str(),
        "conversation-adapter-package.json",
    );
    r.adapter_manifest_path = replacement_manifest_path(
        replacement.install_dir.as_str(),
        package.adapter_manifest_path.as_str(),
        "conversation-adapter.json",
    );
    r.installed_content_hash = Some(replacement.content_hash.clone());
    r.trusted_package_hash = Some(replacement.content_hash.clone());
    r.updated_at = now_rfc3339();
    r
}

/// A catalog entry: an item with what is installed for it.
pub struct ConversationAdapterPackageCatalogEntry {
    pub item: ConversationScriptCatalogItem,
    pub installed: bool,
    pub update_available: bool,
    pub ahead_of_release: bool,
    pub runtime_ready: bool,
    pub status: String,
    pub installed_package: Option<ConversationAdapterPackage>,
    pub installed_adapter: Option<ConversationAdapter>,
    pub install_path: Option<String>,
    /// The adapter manifest path of the entry (the original shows it through
    /// its display-path helper).
    pub manifest_path: Option<String>,
    pub error_message: Option<String>,
}

/// `k` is the first package with the given id.
pub open spec fn first_package(packages: Seq<ConversationAdapterPackage>, id: Seq<char>, k: int) -> bool {
    0 <= k < packages.len() && packages[k].package_id@ == id && forall|j: int|
        0 <= j < k ==> packages[j].package_id@ != id
}

/// Some package has the given id.
pub open spec fn has_package(packages: Seq<ConversationAdapterPackage>, id: Seq<char>) -> bool {
    exists|k: int| 0 <= k < packages.len() && packages[k].package_id@ == id
}

/// `k` is the first adapter with the given id.
pub open spec fn first_adapter(adapters: Seq<ConversationAdapter>, id: Seq<char>, k: int) -> bool {
    0 <= k < adapters.len() && adapters[k].id@ == id && forall|j: int|
        0 <= j < k ==> adapters[j].id@ != id
}

/// Some adapter has the given id.
pub open spec fn has_adapter(adapters: Seq<ConversationAdapter>, id: Seq<char>) -> bool {
    exists|k: int| 0 <= k < adapters.len() && adapters[k].id@ == id
}

/// Index of the first package with the id.
pub fn find_package(packages: &[ConversationAdapterPackage], id: &str) -> (r: Option<usize>)
    ensures
        match r {
            Some(k) => first_package(packages@, id@, k as int),
            None => !has_package(packages@, id@),
        },
{
    let mut k: usize = 0;
    while k < packages.len()
        invariant
            k <= packages@.len(),
            forall|j: int| 0 <= j < k ==> packages@[j].package_id@ != id@,
        decreases packages.len() - k,
    {
        if str_eq(packages[k].package_id.as_str(), id) {
            return Some(k);
        }
        k = k + 1;
    }
    None
}

/// Index of the first adapter with the id.
pub fn find_adapter(adapters: &[ConversationAdapter], id: &str) -> (r: Option<usize>)
    ensures
        match r {
            Some(k) => first_adapter(adapters@, id@, k as int),
            None => !has_adapter(adapters@, id@),
        },
{
    let mut k: usize = 0;
    while k < adapters.len()
        invariant
            k <= adapters@.len(),
            forall|j: int| 0 <= j < k ==> adapters@[j].id@ != id@,
        decreases adapters.len() - k,
    {
        if str_eq(adapters[k].id.as_str(), id) {
            return Some(k);
        }
        k = k + 1;
    }
    None
}

/// Equality of two texts.
pub fn str_eq(a: &str, b: &str) -> (r: bool)
    ensures
        r == (a@ == b@),
{
    chars_eq(&chars_of(a), &chars_of(b))
}

/// Update and ahead-of-release flags of an installed version against the
/// offered one: by SemVer order when both parse, else "different" counts as
/// an update.
pub open spec fn version_flags(installed: Option<Seq<char>>, offered: Seq<char>) -> (bool, bool) {
    match installed {
        None => (false, false),
        Some(v) => if semver_valid(v) && semver_valid(offered) {
            (semver_greater(offered, v), semver_greater(v, offered))
        } else {
            (v != offered, false)
        },
    }
}

pub fn compute_version_flags(installed: Option<&str>, offered: &str) -> (r: (bool, bool))
    ensures
        r == version_flags(
            match installed {
                Some(v) => Some(v@),
                None => None,
            },
            offered@,
        ),
{
    match installed {
        None => (false, false),
        Some(v) => match (semver_newer(offered, v), semver_newer(v, offered)) {
            (Some(update), Some(ahead)) => (update, ahead),
            _ => (!str_eq(v, offered), false),
        },
    }
}

/// The optional text at an optional package index.
pub open spec fn opt_package(packages: Seq<ConversationAdapterPackage>, k: Option<usize>) -> Option<ConversationAdapterPackage> {
    match k {
        Some(i) => Some(packages[i as int]),
        None => None,
    }
}

/// The install path of a catalog item: the package's directory, else the
/// directory of the adapter's manifest, else a local-directory source URL.
pub open spec fn item_install_path(
    item: &ConversationScriptCatalogItem,
    package: Option<ConversationAdapterPackage>,
    adapter: Option<ConversationAdapter>,
) -> Option<Seq<char>> {
    if package is Some {
        Some(package->0.install_dir@)
    } else if adapter is Some && adapter->0.manifest_path is Some && parent(
        adapter->0.manifest_path->0@,
    ) is Some {
        parent(adapter->0.manifest_path->0@)
    } else if item.source.kind == ConversationScriptCatalogSourceKind::LocalDirectory {
        Some(item.source.url@)
    } else {
        None
    }
}

/// The parent directory text of a path.
pub fn parent_text(path: &str) -> (r: Option<String>)
    ensures
        opt_view(r) == parent(path@),
{
    match path_parent(&chars_of(path)) {
        Some(p) => Some(string_of(&p)),
        None => None,
    }
}

/// What the entry of a catalog item holds.
pub open spec fn item_entry_ok(
    item: ConversationScriptCatalogItem,
    e: ConversationAdapterPackageCatalogEntry,
    adapters: Seq<ConversationAdapter>,
    packages: Seq<ConversationAdapterPackage>,
) -> bool {
    &&& e.item == item
    &&& (match e.installed_package {
        Some(p) => exists|k: int| first_package(packages, item.id@, k) && p == packages[k],
        None => !has_package(packages, item.id@),
    })
    &&& (match e.installed_adapter {
        Some(a) => exists|k: int|
            first_adapter(adapters, item.spec_adapter_key(), k) && a.same_as(&adapters[k]),
        None => !has_adapter(adapters, item.spec_adapter_key()),
    })
    &&& e.installed == (e.installed_package is Some || e.installed_adapter is Some)
    &&& opt_view(e.install_path) == item_install_path(&item, e.installed_package, e.installed_adapter)
    &&& (e.update_available, e.ahead_of_release) == version_flags(
        if e.installed_package is Some {
            Some(e.installed_package->0.version@)
        } else if e.installed_adapter is Some {
            Some(e.installed_adapter->0.version@)
        } else {
            None
        },
        item.version@,
    )
    &&& e.runtime_ready == (if e.installed_package is Some {
        e.installed_package->0.runtime_ready
    } else {
        e.installed_adapter is Some && e.installed_adapter->0.enabled
    })
    &&& e.error_message == (if e.installed_package is Some {
        e.installed_package->0.error_message
    } else {
        None
    })
    &&& e.status@ == package_status(
        e.installed,
        match e.installed_package {
            Some(p) => Some(&p),
            None => None,
        },
        e.update_available,
        e.ahead_of_release,
        e.runtime_ready,
        match e.installed_adapter {
            Some(a) => Some(&a),
            None => None,
        },
    )
    &&& opt_view(e.manifest_path) == catalog_manifest_path(
        match e.installed_package {
            Some(p) => Some(&p),
            None => None,
        },
        match e.installed_adapter {
            Some(a) => Some(&a),
            None => None,
        },
        opt_view(e.install_path),
        opt_view(item.manifest_file),
    )
}

/// The entry of a catalog item: the first package with the item's id and the
/// first adapter with its adapter key, and what they say about the item.
pub fn resolve_item_entry(
    item: ConversationScriptCatalogItem,
    adapters: &[ConversationAdapter],
    packages: &[ConversationAdapterPackage],
) -> (e: ConversationAdapterPackageCatalogEntry)
    ensures
        item_entry_ok(item, e, adapters@, packages@),
{
    let installed_package: Option<ConversationAdapterPackage> = match find_package(
        packages,
        item.package_id(),
    ) {
        Some(k) => Some(packages[k].duplicate()),
        None => None,
    };
    let installed_adapter: Option<ConversationAdapter> = match find_adapter(
        adapters,
        item.adapter_key(),
    ) {
        Some(k) => Some(adapters[k].duplicate()),
        None => None,
    };
    let install_path: Option<String> = match &installed_package {
        Some(p) => Some(p.install_dir.clone()),
        None => {
            let from_adapter = match &installed_adapter {
                Some(a) => match &a.manifest_path {
                    Some(m) => parent_text(m.as_str()),
                    None => None,
                },
                None => None,
            };
            match from_adapter {
                Some(p) => Some(p),
                None => if item.source.kind == ConversationScriptCatalogSourceKind::LocalDirectory {
                    Some(item.source.url.clone())
                } else {
                    None
                },
            }
        },
    };
    let installed = installed_package.is_some() || installed_adapter.is_some();
    let installed_version: Option<&str> = match &installed_package {
        Some(p) => Some(p.version.as_str()),
        None => match &installed_adapter {
            Some(a) => Some(a.version.as_str()),
            None => None,
        },
    };
    let (update_available, ahead_of_release) = compute_version_flags(
        installed_version,
        item.version.as_str(),
    );
    let runtime_ready = match &installed_package {
        Some(p) => p.runtime_ready,
        None => match &installed_adapter {
            Some(a) => a.enabled,
            None => false,
        },
    };
    let error_message = match &installed_package {
        Some(p) => clone_opt(&p.error_message),
        None => None,
    };
    let status = conversation_adapter_package_status(
        installed,
        installed_package.as_ref(),
        update_available,
        ahead_of_release,
        runtime_ready,
        installed_adapter.as_ref(),
    );
    let manifest_path = conversation_catalog_manifest_path(
        installed_package.as_ref(),
        installed_adapter.as_ref(),
        match &install_path {
            Some(p) => Some(p.as_str()),
            None => None,
        },
        match &item.manifest_file {
            Some(m) => Some(m.as_str()),
            None => None,
        },
    );
    ConversationAdapterPackageCatalogEntry {
        item,
        installed,
        update_available,
        ahead_of_release,
        runtime_ready,
        status,
        installed_package,
        installed_adapter,
        install_path,
        manifest_path,
        error_message,
    }
}

/// The file name of a path, else the fallback.
pub open spec fn file_name_or(path: Seq<char>, fallback: Seq<char>) -> Seq<char> {
    match file_name(path) {
        Some(n) => n,
        None => fallback,
    }
}

pub fn file_name_text(path: &str) -> (r: Option<String>)
    ensures
        opt_view(r) == file_name(path@),
{
    match path_file_name(&chars_of(path)) {
        Some(n) => Some(string_of(&n)),
        None => None,
    }
}

pub fn file_name_or_text(path: &str, fallback: &str) -> (r: String)
    ensures
        r@ == file_name_or(path@, fallback@),
{
    match file_name_text(path) {
        Some(n) => n,
        None => String::from_str(fallback),
    }
}

/// The catalog record kind of a package record kind.
pub open spec fn script_kind(k: ConversationAdapterPackageRecordKind) -> ConversationScriptRecordKind {
    match k {
        ConversationAdapterPackageRecordKind::Session => ConversationScriptRecordKind::Session,
        ConversationAdapterPackageRecordKind::Web => ConversationScriptRecordKind::Web,
    }
}

/// Update and ahead-of-release flags of a package against its latest known
/// version; both false unless both versions parse.
pub open spec fn latest_flags(latest: Seq<char>, current: Seq<char>) -> (bool, bool) {
    if semver_valid(latest) && semver_valid(current) {
        (semver_greater(latest, current), semver_greater(current, latest))
    } else {
        (false, false)
    }
}

/// The version a package entry offers: the latest known one, else its own.
pub open spec fn package_offered_version(package: &ConversationAdapterPackage) -> Seq<char> {
    match package.latest_version {
        Some(v) => v@,
        None => package.version@,
    }
}

/// What the entry of an unlisted installed package holds.
pub open spec fn package_entry_ok(
    package: ConversationAdapterPackage,
    e: ConversationAdapterPackageCatalogEntry,
    adapters: Seq<ConversationAdapter>,
) -> bool {
    &&& e.item.id == package.package_id
    &&& e.item.name == package.name
    &&& e.item.version@ == package_offered_version(&package)
    &&& e.item.record_kind == script_kind(package.record_kind)
    &&& opt_view(e.item.provider) == Some(origin_label(package.origin))
    &&& e.item.adapter_id == Some(package.adapter_id)
    &&& e.item.description is None
    &&& e.item.homepage_url is None
    &&& e.item.repository_url == package.source_url
    &&& e.item.tags@.len() == 0
    &&& opt_view(e.item.manifest_file) == Some(
        file_name_or(package.adapter_manifest_path@, "conversation-adapter.json"@),
    )
    &&& opt_view(e.item.package_manifest_file) == Some(
        file_name_or(package.manifest_path@, "conversation-adapter-package.json"@),
    )
    &&& e.item.expected_content_hash is None
    &&& e.item.expected_package_hash == package.trusted_package_hash
    &&& e.item.expected_artifact_hash is None
    &&& e.item.artifact_size is None
    &&& e.item.source.kind == ConversationScriptCatalogSourceKind::LocalDirectory
    &&& e.item.source.url == (match package.source_url {
        Some(u) => u,
        None => package.install_dir,
    })
    &&& e.item.source.branch == package.git_ref
    &&& e.item.source.path is None
    &&& e.installed
    &&& (e.update_available, e.ahead_of_release) == latest_flags(
        package_offered_version(&package),
        package.version@,
    )
    &&& e.runtime_ready == package.runtime_ready
    &&& e.installed_package == Some(package)
    &&& (match e.installed_adapter {
        Some(a) => exists|k: int|
            first_adapter(adapters, package.adapter_id@, k) && a.same_as(&adapters[k]),
        None => !has_adapter(adapters, package.adapter_id@),
    })
    &&& e.status@ == package_status(
        true,
        Some(&package),
        e.update_available,
        e.ahead_of_release,
        package.runtime_ready,
        match e.installed_adapter {
            Some(a) => Some(&a),
            None => None,
        },
    )
    &&& e.install_path == Some(package.install_dir)
    &&& e.manifest_path == Some(package.adapter_manifest_path)
    &&& e.error_message == package.error_message
}

/// The entry of an installed package that no catalog item lists.
pub fn package_only_entry(
    package: &ConversationAdapterPackage,
    adapters: &[ConversationAdapter],
) -> (e: ConversationAdapterPackageCatalogEntry)
    ensures
        package_entry_ok(*package, e, adapters@),
{
    let adapter: Option<ConversationAdapter> = match find_adapter(adapters, package.adapter_id.as_str()) {
        Some(k) => Some(adapters[k].duplicate()),
        None => None,
    };
    let latest_version = match &package.latest_version {
        Some(v) => v.clone(),
        None => package.version.clone(),
    };
    let (update_available, ahead_of_release) = match semver_newer(
        latest_version.as_str(),
        package.version.as_str(),
    ) {
        Some(update) => match semver_newer(package.version.as_str(), latest_version.as_str()) {
            Some(ahead) => (update, ahead),
            None => (false, false),
        },
        None => (false, false),
    };
    let item = ConversationScriptCatalogItem {
        id: package.package_id.clone(),
        name: package.name.clone(),
        version: latest_version,
        record_kind: match package.record_kind {
            ConversationAdapterPackageRecordKind::Session => ConversationScriptRecordKind::Session,
            ConversationAdapterPackageRecordKind::Web => ConversationScriptRecordKind::Web,
        },
        provider: Some(String::from_str(package_origin_label(package.origin))),
        adapter_id: Some(package.adapter_id.clone()),
        description: None,
        homepage_url: None,
        repository_url: clone_opt(&package.source_url),
        tags: Vec::new(),
        manifest_file: Some(
            file_name_or_text(package.adapter_manifest_path.as_str(), "conversation-adapter.json"),
        ),
        package_manifest_file: Some(
            file_name_or_text(package.manifest_path.as_str(), "conversation-adapter-package.json"),
        ),
        expected_content_hash: None,
        expected_package_hash: clone_opt(&package.trusted_package_hash),
        expected_artifact_hash: None,
        artifact_size: None,
        source: ConversationScriptCatalogSource {
            kind: ConversationScriptCatalogSourceKind::LocalDirectory,
            url: match &package.source_url {
                Some(u) => u.clone(),
                None => package.install_dir.clone(),
            },
            branch: clone_opt(&package.git_ref),
            path: None,
        },
    };
    let status = conversation_adapter_package_status(
        true,
        Some(package),
        update_available,
        ahead_of_release,
        package.runtime_ready,
        adapter.as_ref(),
    );
    ConversationAdapterPackageCatalogEntry {
        item,
        installed: true,
        update_available,
        ahead_of_release,
        runtime_ready: package.runtime_ready,
        status,
        installed_package: Some(package.duplicate()),
        installed_adapter: adapter,
        install_path: Some(package.install_dir.clone()),
        manifest_path: Some(package.adapter_manifest_path.clone()),
        error_message: clone_opt(&package.error_message),
    }
}

/// Some text of the list equals the literal.
pub open spec fn lists(v: Seq<String>, t: Seq<char>) -> bool {
    exists|i: int| 0 <= i < v.len() && v[i]@ == t
}

pub fn list_contains(v: &Vec<String>, t: &str) -> (r: bool)
    ensures
        r == lists(v@, t@),
{
    let mut i: usize = 0;
    while i < v.len()
        invariant
            i <= v@.len(),
            forall|j: int| 0 <= j < i ==> v@[j]@ != t@,
        decreases v.len() - i,
    {
        if str_eq(v[i].as_str(), t) {
            return true;
        }
        i = i + 1;
    }
    false
}

/// What the entry of an unlisted registered adapter holds.
pub open spec fn adapter_entry_ok(
    adapter: ConversationAdapter,
    e: ConversationAdapterPackageCatalogEntry,
) -> bool {
    &&& e.item.id == adapter.id
    &&& e.item.name == adapter.name
    &&& e.item.version == adapter.version
    &&& e.item.record_kind == (if lists(adapter.capabilities@, "web_records"@) {
        ConversationScriptRecordKind::Web
    } else {
        ConversationScriptRecordKind::Session
    })
    &&& opt_view(e.item.provider) == Some(
        if adapter.trust_state == ConversationAdapterTrustState::BuiltIn {
            "built_in"@
        } else {
            "legacy_external"@
        },
    )
    &&& e.item.adapter_id == Some(adapter.id)
    &&& e.item.description is None
    &&& e.item.homepage_url is None
    &&& e.item.repository_url is None
    &&& e.item.tags@.len() == 0
    &&& opt_view(e.item.manifest_file) == (match adapter.manifest_path {
        Some(m) => file_name(m@),
        None => None,
    })
    &&& e.item.package_manifest_file is None
    &&& e.item.expected_content_hash == adapter.trusted_hash
    &&& e.item.expected_package_hash is None
    &&& e.item.expected_artifact_hash is None
    &&& e.item.artifact_size is None
    &&& e.item.source.kind == ConversationScriptCatalogSourceKind::LocalDirectory
    &&& e.item.source.url@ == (match opt_view(e.install_path) {
        Some(p) => p,
        None => Seq::empty(),
    })
    &&& e.item.source.branch is None
    &&& e.item.source.path is None
    &&& e.installed
    &&& !e.update_available
    &&& !e.ahead_of_release
    &&& e.runtime_ready == adapter.enabled
    &&& e.status@ == package_status(true, None, false, false, adapter.enabled, Some(&adapter))
    &&& e.installed_package is None
    &&& e.installed_adapter matches Some(a) && a.same_as(&adapter)
    &&& opt_view(e.install_path) == (match adapter.manifest_path {
        Some(m) => parent(m@),
        None => None,
    })
    &&& e.manifest_path == adapter.manifest_path
    &&& e.error_message is None
}

/// The entry of a registered adapter that neither an item nor a package lists.
pub fn adapter_only_entry(adapter: &ConversationAdapter) -> (e: ConversationAdapterPackageCatalogEntry)
    ensures
        adapter_entry_ok(*adapter, e),
{
    let record_kind = if list_contains(&adapter.capabilities, "web_records") {
        ConversationScriptRecordKind::Web
    } else {
        ConversationScriptRecordKind::Session
    };
    let install_path: Option<String> = match &adapter.manifest_path {
        Some(m) => parent_text(m.as_str()),
        None => None,
    };
    let item = ConversationScriptCatalogItem {
        id: adapter.id.clone(),
        name: adapter.name.clone(),
        version: adapter.version.clone(),
        record_kind,
        provider: Some(
            String::from_str(
                match adapter.trust_state {
                    ConversationAdapterTrustState::BuiltIn => "built_in",
                    _ => "legacy_external",
                },
            ),
        ),
        adapter_id: Some(adapter.id.clone()),
        description: None,
        homepage_url: None,
        repository_url: None,
        tags: Vec::new(),
        manifest_file: match &adapter.manifest_path {
            Some(m) => file_name_text(m.as_str()),
            None => None,
        },
        package_manifest_file: None,
        expected_content_hash: clone_opt(&adapter.trusted_hash),
        expected_package_hash: None,
        expected_artifact_hash: None,
        artifact_size: None,
        source: ConversationScriptCatalogSource {
            kind: ConversationScriptCatalogSourceKind::LocalDirectory,
            url: match &install_path {
                Some(p) => p.clone(),
                None => String::new(),
            },
            branch: None,
            path: None,
        },
    };
    let status = conversation_adapter_package_status(
        true,
        None,
        false,
        false,
        adapter.enabled,
        Some(adapter),
    );
    ConversationAdapterPackageCatalogEntry {
        item,
        installed: true,
        update_available: false,
        ahead_of_release: false,
        runtime_ready: adapter.enabled,
        status,
        installed_package: None,
        installed_adapter: Some(adapter.duplicate()),
        install_path,
        manifest_path: clone_opt(&adapter.manifest_path),
        error_message: None,
    }
}

/// `perm` places every entry of `pre` in `r`: `r` is ordered by item name,
/// and entries with equal names keep their order in `pre`.
pub open spec fn is_stable_name_sort(
    r: Seq<ConversationAdapterPackageCatalogEntry>,
    pre: Seq<ConversationAdapterPackageCatalogEntry>,
    perm: Seq<int>,
) -> bool {
    &&& r.len() == pre.len()
    &&& perm.len() == r.len()
    &&& forall|i: int| 0 <= i < perm.len() ==> 0 <= #[trigger] perm[i] < pre.len()
    &&& forall|i: int, j: int| 0 <= i < j < perm.len() ==> perm[i] != perm[j]
    &&& forall|i: int| 0 <= i < r.len() ==> #[trigger] r[i] == pre[perm[i]]
    &&& forall|i: int, j: int|
        0 <= i < j < r.len() ==> lex_order(r[i].item.name@, r[j].item.name@) <= 0
    &&& forall|i: int, j: int|
        0 <= i < j < r.len() && lex_order(r[i].item.name@, r[j].item.name@) == 0 ==> perm[i]
            < perm[j]
}

/// `r` is `pre` stably sorted by item name.
pub open spec fn stable_name_sort(
    r: Seq<ConversationAdapterPackageCatalogEntry>,
    pre: Seq<ConversationAdapterPackageCatalogEntry>,
) -> bool {
    exists|perm: Seq<int>| is_stable_name_sort(r, pre, perm)
}

/// Sorts entries by item name, keeping the order of equal names (as
/// `sort_by` does).
pub fn sort_entries_by_name(pre: Vec<ConversationAdapterPackageCatalogEntry>) -> (r: Vec<
    ConversationAdapterPackageCatalogEntry,
>)
    ensures
        stable_name_sort(r@, pre@),
{
    let ghost orig = pre@;
    let n = pre.len();
    let mut rest = pre;
    let mut out: Vec<ConversationAdapterPackageCatalogEntry> = Vec::new();
    let ghost mut perm: Seq<int> = Seq::empty();
    while rest.len() > 0
        invariant
            n == orig.len(),
            rest@ == orig.take(rest@.len() as int),
            rest@.len() <= n,
            out@.len() == n - rest@.len(),
            perm.len() == out@.len(),
            forall|i: int| 0 <= i < perm.len() ==> rest@.len() <= #[trigger] perm[i] < n,
            forall|i: int, j: int| 0 <= i < j < perm.len() ==> perm[i] != perm[j],
            forall|i: int| 0 <= i < out@.len() ==> #[trigger] out@[i] == orig[perm[i]],
            forall|i: int, j: int|
                0 <= i < j < out@.len() ==> lex_order(out@[i].item.name@, out@[j].item.name@)
                    <= 0,
            forall|i: int, j: int|
                0 <= i < j < out@.len() && lex_order(out@[i].item.name@, out@[j].item.name@) == 0
                    ==> perm[i] < perm[j],
        decreases rest@.len(),
    {
        let ghost m = rest@.len() - 1;
        let x = rest.pop().unwrap();
        assert(x == orig[m]);
        assert(rest@ =~= orig.take(m));
        let xname = chars_of(x.item.name.as_str());
        let mut p: usize = 0;
        while p < out.len() && lex_compare(&chars_of(out[p].item.name.as_str()), &xname) < 0
            invariant
                p <= out@.len(),
                xname@ == x.item.name@,
                forall|i: int| 0 <= i < p ==> lex_order(out@[i].item.name@, x.item.name@) < 0,
            decreases out@.len() - p,
        {
            p = p + 1;
        }
        proof {
            if p < out@.len() {
                lemma_lex_antisym(out@[p as int].item.name@, x.item.name@);
                lemma_lex_range(out@[p as int].item.name@, x.item.name@);
            }
            assert forall|i: int| p <= i < out@.len() implies lex_order(
                x.item.name@,
                out@[i].item.name@,
            ) <= 0 by {
                lemma_lex_antisym(out@[p as int].item.name@, x.item.name@);
                if i > p {
                    lemma_lex_trans(x.item.name@, out@[p as int].item.name@, out@[i].item.name@);
                }
            }
        }
        let ghost old_out = out@;
        let ghost old_perm = perm;
        out.insert(p, x);
        proof {
            perm = old_perm.insert(p as int, m);
            assert forall|i: int| 0 <= i < out@.len() implies #[trigger] out@[i] == orig[perm[i]] by {
                if i < p {
                    assert(out@[i] == old_out[i]);
                } else if i > p {
                    assert(out@[i] == old_out[i - 1]);
                }
            }
            assert forall|i: int| 0 <= i < perm.len() implies rest@.len() <= #[trigger] perm[i] < n by {
                if i < p {
                    assert(perm[i] == old_perm[i]);
                } else if i > p {
                    assert(perm[i] == old_perm[i - 1]);
                }
            }
            assert forall|i: int, j: int| 0 <= i < j < perm.len() implies perm[i] != perm[j] by {
                if i < p && j < p {
                } else if i < p && j == p {
                } else if i < p {
                    assert(perm[j] == old_perm[j - 1]);
                } else if i == p {
                    assert(perm[j] == old_perm[j - 1]);
                } else {
                    assert(perm[i] == old_perm[i - 1]);
                    assert(perm[j] == old_perm[j - 1]);
                }
            }
            assert forall|i: int, j: int|
                0 <= i < j < out@.len() implies lex_order(out@[i].item.name@, out@[j].item.name@)
                <= 0 by {
                if j < p {
                    assert(out@[i] == old_out[i] && out@[j] == old_out[j]);
                } else if j == p {
                    assert(out@[i] == old_out[i]);
                } else if i < p {
                    assert(out@[i] == old_out[i] && out@[j] == old_out[j - 1]);
                    lemma_lex_trans(old_out[i].item.name@, x.item.name@, old_out[j - 1].item.name@);
                } else if i == p {
                    assert(out@[j] == old_out[j - 1]);
                } else {
                    assert(out@[i] == old_out[i - 1] && out@[j] == old_out[j - 1]);
                }
            }
            assert forall|i: int, j: int|
                0 <= i < j < out@.len() && lex_order(out@[i].item.name@, out@[j].item.name@) == 0
                    implies perm[i] < perm[j] by {
                if j < p {
                    assert(out@[i] == old_out[i] && out@[j] == old_out[j]);
                    assert(perm[i] == old_perm[i] && perm[j] == old_perm[j]);
                } else if j == p {
                    assert(out@[i] == old_out[i]);
                } else if i < p {
                    assert(out@[i] == old_out[i] && out@[j] == old_out[j - 1]);
                    lemma_lex_trans(old_out[i].item.name@, x.item.name@, old_out[j - 1].item.name@);
                } else if i == p {
                    assert(perm[j] == old_perm[j - 1]);
                } else {
                    assert(out@[i] == old_out[i - 1] && out@[j] == old_out[j - 1]);
                    assert(perm[i] == old_perm[i - 1] && perm[j] == old_perm[j - 1]);
                }
            }
        }
    }
    assert(is_stable_name_sort(out@, orig, perm));
    out
}

/// Some catalog item has the id.
pub open spec fn item_has_id(items: Seq<ConversationScriptCatalogItem>, id: Seq<char>) -> bool {
    exists|i: int| 0 <= i < items.len() && items[i].id@ == id
}

/// Package `k` gets an entry of its own: no item lists its id and no earlier
/// package has it.
pub open spec fn package_listed(
    items: Seq<ConversationScriptCatalogItem>,
    packages: Seq<ConversationAdapterPackage>,
    k: int,
) -> bool {
    &&& 0 <= k < packages.len()
    &&& !item_has_id(items, packages[k].package_id@)
    &&& forall|j: int| 0 <= j < k ==> packages[j].package_id@ != packages[k].package_id@
}

/// An adapter id already covered by an item's adapter key or by a package
/// that got an entry of its own.
pub open spec fn adapter_covered(
    items: Seq<ConversationScriptCatalogItem>,
    packages: Seq<ConversationAdapterPackage>,
    id: Seq<char>,
) -> bool {
    ||| exists|i: int| 0 <= i < items.len() && items[i].spec_adapter_key() == id
    ||| exists|k: int| package_listed(items, packages, k) && packages[k].adapter_id@ == id
}

/// Adapter `k` gets an entry of its own.
pub open spec fn adapter_listed(
    items: Seq<ConversationScriptCatalogItem>,
    adapters: Seq<ConversationAdapter>,
    packages: Seq<ConversationAdapterPackage>,
    k: int,
) -> bool {
    &&& 0 <= k < adapters.len()
    &&& !adapter_covered(items, packages, adapters[k].id@)
    &&& forall|j: int| 0 <= j < k ==> adapters[j].id@ != adapters[k].id@
}

/// Indices below `n` of packages that get an entry of their own, in order.
pub open spec fn listed_packages(
    items: Seq<ConversationScriptCatalogItem>,
    packages: Seq<ConversationAdapterPackage>,
    n: int,
) -> Seq<int>
    decreases n,
{
    if n <= 0 {
        Seq::empty()
    } else if package_listed(items, packages, n - 1) {
        listed_packages(items, packages, n - 1).push(n - 1)
    } else {
        listed_packages(items, packages, n - 1)
    }
}

/// Indices below `n` of adapters that get an entry of their own, in order.
pub open spec fn listed_adapters(
    items: Seq<ConversationScriptCatalogItem>,
    adapters: Seq<ConversationAdapter>,
    packages: Seq<ConversationAdapterPackage>,
    n: int,
) -> Seq<int>
    decreases n,
{
    if n <= 0 {
        Seq::empty()
    } else if adapter_listed(items, adapters, packages, n - 1) {
        listed_adapters(items, adapters, packages, n - 1).push(n - 1)
    } else {
        listed_adapters(items, adapters, packages, n - 1)
    }
}

/// The entries before sorting: one per item, then one per listed package,
/// then one per listed adapter.
pub open spec fn catalog_entries_unsorted(
    pre: Seq<ConversationAdapterPackageCatalogEntry>,
    items: Seq<ConversationScriptCatalogItem>,
    adapters: Seq<ConversationAdapter>,
    packages: Seq<ConversationAdapterPackage>,
) -> bool {
    let lp = listed_packages(items, packages, packages.len() as int);
    let la = listed_adapters(items, adapters, packages, adapters.len() as int);
    &&& pre.len() == items.len() + lp.len() + la.len()
    &&& forall|i: int| 0 <= i < items.len() ==> item_entry_ok(items[i], #[trigger] pre[i], adapters, packages)
    &&& forall|m: int|
        0 <= m < lp.len() ==> package_entry_ok(packages[lp[m]], #[trigger] pre[items.len() + m], adapters)
    &&& forall|m: int|
        0 <= m < la.len() ==> adapter_entry_ok(
            adapters[la[m]],
            #[trigger] pre[items.len() + lp.len() + m],
        )
}

/// Whether some item has the id.
pub fn items_have_id(items: &Vec<ConversationScriptCatalogItem>, id: &str) -> (r: bool)
    ensures
        r == item_has_id(items@, id@),
{
    let mut i: usize = 0;
    while i < items.len()
        invariant
            i <= items@.len(),
            forall|j: int| 0 <= j < i ==> items@[j].id@ != id@,
        decreases items.len() - i,
    {
        if str_eq(items[i].id.as_str(), id) {
            return true;
        }
        i = i + 1;
    }
    false
}

/// Which packages get an entry of their own.
pub fn package_listing(
    items: &Vec<ConversationScriptCatalogItem>,
    packages: &[ConversationAdapterPackage],
) -> (r: Vec<bool>)
    ensures
        r@.len() == packages@.len(),
        forall|k: int| 0 <= k < packages@.len() ==> r@[k] == package_listed(items@, packages@, k),
{
    let mut r: Vec<bool> = Vec::new();
    let mut k: usize = 0;
    while k < packages.len()
        invariant
            k <= packages@.len(),
            r@.len() == k,
            forall|i: int| 0 <= i < k ==> r@[i] == package_listed(items@, packages@, i),
        decreases packages.len() - k,
    {
        let mut listed = !items_have_id(items, packages[k].package_id.as_str());
        let mut j: usize = 0;
        while j < k
            invariant
                j <= k < packages@.len(),
                listed == (!item_has_id(items@, packages@[k as int].package_id@) && forall|i: int|
                    0 <= i < j ==> packages@[i].package_id@ != packages@[k as int].package_id@),
            decreases k - j,
        {
            if packages[j].package_id == packages[k].package_id {
                listed = false;
            }
            j = j + 1;
        }
        r.push(listed);
        k = k + 1;
    }
    r
}

/// Which adapters get an entry of their own.
pub fn adapter_listing(
    items: &Vec<ConversationScriptCatalogItem>,
    adapters: &[ConversationAdapter],
    packages: &[ConversationAdapterPackage],
    package_flags: &Vec<bool>,
) -> (r: Vec<bool>)
    requires
        package_flags@.len() == packages@.len(),
        forall|k: int|
            0 <= k < packages@.len() ==> package_flags@[k] == package_listed(items@, packages@, k),
    ensures
        r@.len() == adapters@.len(),
        forall|k: int|
            0 <= k < adapters@.len() ==> r@[k] == adapter_listed(items@, adapters@, packages@, k),
{
    let mut r: Vec<bool> = Vec::new();
    let mut k: usize = 0;
    while k < adapters.len()
        invariant
            k <= adapters@.len(),
            r@.len() == k,
            package_flags@.len() == packages@.len(),
            forall|i: int|
                0 <= i < packages@.len() ==> package_flags@[i] == package_listed(items@, packages@, i),
            forall|i: int| 0 <= i < k ==> r@[i] == adapter_listed(items@, adapters@, packages@, i),
        decreases adapters.len() - k,
    {
        let id = adapters[k].id.as_str();
        let mut covered = false;
        let mut i: usize = 0;
        while i < items.len()
            invariant
                i <= items@.len(),
                id@ == adapters@[k as int].id@,
                covered == exists|t: int| 0 <= t < i && items@[t].spec_adapter_key() == id@,
            decreases items.len() - i,
        {
            if str_eq(items[i].adapter_key(), id) {
                covered = true;
            }
            i = i + 1;
        }
        let mut q: usize = 0;
        while q < packages.len()
            invariant
                q <= packages@.len(),
                id@ == adapters@[k as int].id@,
                package_flags@.len() == packages@.len(),
                forall|t: int|
                    0 <= t < packages@.len() ==> package_flags@[t] == package_listed(items@, packages@, t),
                covered == ((exists|t: int| 0 <= t < items@.len() && items@[t].spec_adapter_key() == id@)
                    || exists|t: int|
                    0 <= t < q && package_listed(items@, packages@, t) && packages@[t].adapter_id@
                        == id@),
            decreases packages.len() - q,
        {
            if package_flags[q] && str_eq(packages[q].adapter_id.as_str(), id) {
                covered = true;
            }
            q = q + 1;
        }
        let mut listed = !covered;
        let mut j: usize = 0;
        while j < k
            invariant
                j <= k < adapters@.len(),
                listed == (!adapter_covered(items@, packages@, adapters@[k as int].id@) && forall|t: int|
                    0 <= t < j ==> adapters@[t].id@ != adapters@[k as int].id@),
            decreases k - j,
        {
            if adapters[j].id == adapters[k].id {
                listed = false;
            }
            j = j + 1;
        }
        r.push(listed);
        k = k + 1;
    }
    r
}

/// Resolves catalog items against registered adapters and installed
/// packages, adds entries for installed packages and adapters that no item
/// lists, and orders everything by name.
pub fn resolve_conversation_adapter_package_catalog_entries(
    items: Vec<ConversationScriptCatalogItem>,
    adapters: &[ConversationAdapter],
    packages: &[ConversationAdapterPackage],
) -> (r: Vec<ConversationAdapterPackageCatalogEntry>)
    ensures
        exists|pre: Seq<ConversationAdapterPackageCatalogEntry>|
            catalog_entries_unsorted(pre, items@, adapters@, packages@) && stable_name_sort(r@, pre),
{
    let ghost orig = items@;
    let package_flags = package_listing(&items, packages);
    let adapter_flags = adapter_listing(&items, adapters, packages, &package_flags);
    let n_items = items.len();
    let mut rest = items;
    let mut pre: Vec<ConversationAdapterPackageCatalogEntry> = Vec::new();
    while rest.len() > 0
        invariant
            rest@ == orig.skip(pre@.len() as int),
            pre@.len() <= n_items,
            n_items == orig.len(),
            forall|i: int| 0 <= i < pre@.len() ==> item_entry_ok(orig[i], #[trigger] pre@[i], adapters@, packages@),
        decreases rest@.len(),
    {
        let item = rest.remove(0);
        assert(item == orig[pre@.len() as int]);
        let e = resolve_item_entry(item, adapters, packages);
        pre.push(e);
        assert(rest@ =~= orig.skip(pre@.len() as int));
    }
    let mut k: usize = 0;
    while k < packages.len()
        invariant
            k <= packages@.len(),
            package_flags@.len() == packages@.len(),
            forall|t: int| 0 <= t < packages@.len() ==> package_flags@[t] == package_listed(orig, packages@, t),
            n_items == orig.len(),
            pre@.len() == n_items + listed_packages(orig, packages@, k as int).len(),
            forall|i: int| 0 <= i < n_items ==> item_entry_ok(orig[i], #[trigger] pre@[i], adapters@, packages@),
            forall|m: int|
                0 <= m < listed_packages(orig, packages@, k as int).len() ==> package_entry_ok(
                    packages@[listed_packages(orig, packages@, k as int)[m]],
                    #[trigger] pre@[n_items + m],
                    adapters@,
                ),
        decreases packages.len() - k,
    {
        if package_flags[k] {
            let e = package_only_entry(&packages[k], adapters);
            pre.push(e);
        }
        k = k + 1;
    }
    let ghost lp = listed_packages(orig, packages@, packages@.len() as int);
    let mut k: usize = 0;
    while k < adapters.len()
        invariant
            k <= adapters@.len(),
            adapter_flags@.len() == adapters@.len(),
            forall|t: int|
                0 <= t < adapters@.len() ==> adapter_flags@[t] == adapter_listed(orig, adapters@, packages@, t),
            n_items == orig.len(),
            lp == listed_packages(orig, packages@, packages@.len() as int),
            pre@.len() == n_items + lp.len() + listed_adapters(orig, adapters@, packages@, k as int).len(),
            forall|i: int| 0 <= i < n_items ==> item_entry_ok(orig[i], #[trigger] pre@[i], adapters@, packages@),
            forall|m: int|
                0 <= m < lp.len() ==> package_entry_ok(
                    packages@[lp[m]],
                    #[trigger] pre@[n_items + m],
                    adapters@,
                ),
            forall|m: int|
                0 <= m < listed_adapters(orig, adapters@, packages@, k as int).len() ==> adapter_entry_ok(
                    adapters@[listed_adapters(orig, adapters@, packages@, k as int)[m]],
                    #[trigger] pre@[n_items + lp.len() + m],
                ),
        decreases adapters.len() - k,
    {
        if adapter_flags[k] {
            let e = adapter_only_entry(&adapters[k]);
            pre.push(e);
        }
        k = k + 1;
    }
    assert(catalog_entries_unsorted(pre@, orig, adapters@, packages@));
    let ghost pre_v = pre@;
    let r = sort_entries_by_name(pre);
    assert(catalog_entries_unsorted(pre_v, orig, adapters@, packages@) && stable_name_sort(r@, pre_v));
    r
}


/// A cleaned catalog sub-path is relative: it splits at `/` back into the
/// pieces it was built from, and none of them is empty, `.`, `..` or `.git`,
/// or holds `\` or `:`.
pub proof fn law_catalog_subpath_stays_inside(value: Seq<char>)
    ensures
        catalog_subpath(value) matches Some(r) ==> {
            &&& r.len() > 0
            &&& r[0] != '/'
            &&& forall|k: int|
                0 <= k < split_on(r, '/').len() ==> {
                    let piece = #[trigger] split_on(r, '/')[k];
                    &&& piece.len() > 0
                    &&& piece != "."@
                    &&& piece != ".."@
                    &&& piece != ".git"@
                    &&& !has_char(piece, '/')
                    &&& !has_char(piece, '\\')
                    &&& !has_char(piece, ':')
                }
        },
{
    let parts = subpath_parts(value);
    let keep = |p: Seq<char>| !subpath_part_skipped(p);
    let k = kept(parts, keep);
    if let Some(r) = catalog_subpath(value) {
        lemma_split_fold_pieces(trim_char(trim(value), '/'), '/', 0, Seq::empty(), Seq::empty());
        lemma_kept_from(parts, keep);
        assert forall|i: int| 0 <= i < k.len() implies !has_char(#[trigger] k[i], '/') by {
            assert(parts.contains(k[i]));
            let j = choose|j: int| 0 <= j < parts.len() && parts[j] == k[i];
        }
        assert("/"@ =~= seq!['/']) by {
            reveal_strlit("/");
        }
        lemma_split_join(k, '/');
        lemma_join_starts(k, "/"@);
        assert(keep(k[0]));
        assert(k[0].len() > 0);
        assert(r[0] == k[0][0]);
        assert(k[0][0] != '/');
        assert forall|i: int| 0 <= i < split_on(r, '/').len() implies {
            let piece = #[trigger] split_on(r, '/')[i];
            &&& piece.len() > 0
            &&& piece != "."@
            &&& piece != ".."@
            &&& piece != ".git"@
            &&& !has_char(piece, '/')
            &&& !has_char(piece, '\\')
            &&& !has_char(piece, ':')
        } by {
            assert(split_on(r, '/')[i] == k[i]);
            assert(keep(k[i]) && parts.contains(k[i]));
            let j = choose|j: int| 0 <= j < parts.len() && parts[j] == k[i];
            assert(!subpath_part_rejected(parts[j]));
        }
    }
}

} // verus!
