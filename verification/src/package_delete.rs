//! Deciding whether a managed adapter package directory may be deleted: the
//! package id must be one plain path segment, and the install directory must
//! resolve to a package root directly below the managed `packages` folder.

use vstd::prelude::*;
use crate::error::{AppError, AppResult, message_with};
use crate::paths::{
    components, comps_of, comps_start_with, join, join_path, path_components, path_starts_with,
    starts_with_path, PathComp, PathComponent,
};
use crate::script_catalog::{str_eq, validated_package_version};
use crate::text::{chars_of, string_of, trim, trim_str};
use crate::versions::{semver_parse_error, semver_valid};

verus! {

/// A package id that names exactly one plain directory.
pub open spec fn safe_package_segment(package_id: Seq<char>) -> bool {
    let t = trim(package_id);
    &&& t.len() > 0
    &&& t != "."@
    &&& t != ".."@
    &&& components(t).len() == 1
    &&& components(t)[0] is Normal
}

/// The folder that holds the managed packages.
pub open spec fn packages_root_of(managed_root: Seq<char>) -> Seq<char> {
    join(managed_root, "packages"@)
}

/// The first check of a delete: the package id is one plain segment, and
/// the install directory exists below the managed packages folder. On
/// success the packages folder is returned.
pub fn check_managed_package_delete_request(
    managed_root: &str,
    package_id: &str,
    install_dir: &str,
    install_dir_exists: bool,
) -> (r: AppResult<String>)
    ensures
        !safe_package_segment(package_id@) ==> (r matches Err(e) && e is Validation && e->Validation_0@
            == "conversation adapter package id is not a safe path segment: "@ + trim(package_id@)),
        safe_package_segment(package_id@) && !(install_dir_exists && path_starts_with(
            install_dir@,
            packages_root_of(managed_root@),
        )) ==> (r matches Err(e) && e is Validation && e->Validation_0@
            == "conversation adapter package delete target does not exist in the managed library: "@
            + install_dir@),
        safe_package_segment(package_id@) && install_dir_exists && path_starts_with(
            install_dir@,
            packages_root_of(managed_root@),
        ) ==> (r matches Ok(p) && p@ == packages_root_of(managed_root@)),
{
    let id = trim_str(package_id);
    let c = path_components(&chars_of(id.as_str()));
    let mut safe = chars_of(id.as_str()).len() > 0 && !str_eq(id.as_str(), ".") && !str_eq(id.as_str(), "..") && c.len() == 1;
    if safe {
        match &c[0] {
            PathComponent::Normal(_) => {},
            _ => {
                safe = false;
            },
        }
    }
    proof {
        if safe {
            assert(comps_of(c@)[0] == c@[0].comp());
        } else if id@.len() > 0 && id@ != "."@ && id@ != ".."@ && c@.len() == 1 {
            assert(comps_of(c@)[0] == c@[0].comp());
        }
    }
    if !safe {
        return Err(AppError::Validation(message_with(
            "conversation adapter package id is not a safe path segment: ",
            id.as_str(),
        )));
    }
    let packages_root = string_of(&join_path(&chars_of(managed_root), &chars_of("packages")));
    if !install_dir_exists || !starts_with_path(install_dir, packages_root.as_str()) {
        return Err(AppError::Validation(message_with(
            "conversation adapter package delete target does not exist in the managed library: ",
            install_dir,
        )));
    }
    Ok(packages_root)
}

/// The first component of `path` after the components of `base`, when
/// `base` begins `path`; `None` when it does not.
pub open spec fn component_after(path: Seq<char>, base: Seq<char>) -> Option<Option<PathComp>> {
    let p = components(path);
    let b = components(base);
    if !path_starts_with(path, base) {
        None
    } else if p.len() == b.len() {
        Some(None)
    } else {
        Some(Some(p[b.len() as int]))
    }
}

/// The package root that the resolved install directory lies in: the
/// packages folder joined with the first component below the resolved
/// packages folder.
pub fn resolve_managed_package_root(
    packages_root: &str,
    canonical_packages_root: &str,
    canonical_install_dir: &str,
    install_dir: &str,
) -> (r: AppResult<String>)
    ensures
        match component_after(canonical_install_dir@, canonical_packages_root@) {
            None => r matches Err(e) && e is Other && e->Other_0@
                == "conversation adapter package install directory escapes the managed library: "@
                + install_dir@,
            Some(Some(PathComp::Normal(seg))) => r matches Ok(p) && p@ == join(packages_root@, seg),
            Some(_) => r matches Err(e) && e is Other && e->Other_0@
                == "conversation adapter package install directory has no package root"@,
        },
{
    let p = path_components(&chars_of(canonical_install_dir));
    let b = path_components(&chars_of(canonical_packages_root));
    if !comps_start_with(&p, &b) {
        return Err(AppError::Other(message_with(
            "conversation adapter package install directory escapes the managed library: ",
            install_dir,
        )));
    }
    if p.len() == b.len() {
        return Err(AppError::Other(String::from_str(
            "conversation adapter package install directory has no package root",
        )));
    }
    assert(comps_of(p@)[b@.len() as int] == p@[b@.len() as int].comp());
    match &p[b.len()] {
        PathComponent::Normal(seg) => Ok(string_of(&join_path(&chars_of(packages_root), seg))),
        _ => Err(AppError::Other(String::from_str(
            "conversation adapter package install directory has no package root",
        ))),
    }
}

/// `canonical_parent` is, by components, the parent of `path`.
pub open spec fn is_parent_dir(path: Seq<char>, canonical_parent: Seq<char>) -> bool {
    let c = components(path);
    c.len() > 0 && !(c.last() is Root) && c.drop_last() == components(canonical_parent)
}

/// Two paths with the same components.
pub open spec fn same_path(a: Seq<char>, b: Seq<char>) -> bool {
    components(a) == components(b)
}

fn same_components(a: &Vec<PathComponent>, b: &Vec<PathComponent>) -> (r: bool)
    ensures
        r == (comps_of(a@) == comps_of(b@)),
{
    let s = a.len() == b.len() && comps_start_with(a, b);
    proof {
        assert(comps_of(a@).len() == a@.len());
        assert(comps_of(b@).len() == b@.len());
        if a@.len() == b@.len() {
            assert(comps_of(a@).subrange(0, b@.len() as int) =~= comps_of(a@));
        }
    }
    s
}

/// The resolved package root must sit directly in the resolved packages
/// folder, and the resolved install directory must lie strictly inside it.
pub fn check_managed_package_root(
    canonical_packages_root: &str,
    canonical_package_root: &str,
    canonical_install_dir: &str,
    package_root: &str,
) -> (r: AppResult<()>)
    ensures
        (is_parent_dir(canonical_package_root@, canonical_packages_root@) && !same_path(
            canonical_install_dir@,
            canonical_package_root@,
        ) && path_starts_with(canonical_install_dir@, canonical_package_root@)) ==> r is Ok,
        !(is_parent_dir(canonical_package_root@, canonical_packages_root@) && !same_path(
            canonical_install_dir@,
            canonical_package_root@,
        ) && path_starts_with(canonical_install_dir@, canonical_package_root@)) ==> (r matches Err(e)
            && e is Validation && e->Validation_0@
            == "conversation adapter package root escapes the managed library: "@ + package_root@),
{
    let root = path_components(&chars_of(canonical_package_root));
    let packages = path_components(&chars_of(canonical_packages_root));
    let install = path_components(&chars_of(canonical_install_dir));
    let mut parent_ok = false;
    if root.len() > 0 {
        let n = root.len() - 1;
        assert(comps_of(root@).last() == root@[n as int].comp());
        let is_root = match &root[n] {
            PathComponent::RootDir => true,
            _ => false,
        };
        if !is_root && packages.len() == n && comps_start_with(&root, &packages) {
            parent_ok = true;
        }
        proof {
            assert(comps_of(root@).drop_last() =~= comps_of(root@).subrange(0, n as int));
        }
    }
    let inside = !same_components(&install, &root) && comps_start_with(&install, &root);
    if !parent_ok || !inside {
        return Err(AppError::Validation(message_with(
            "conversation adapter package root escapes the managed library: ",
            package_root,
        )));
    }
    Ok(())
}

/// The version directory a version delete must resolve to:
/// `<package root>/versions/<version>`, the version checked as SemVer.
pub fn managed_version_dir(package_root: &str, version: &str) -> (r: AppResult<String>)
    ensures
        semver_valid(trim(version@)) ==> (r matches Ok(p) && p@ == join(
            join(package_root@, "versions"@),
            trim(version@),
        )),
        !semver_valid(trim(version@)) ==> (r matches Err(e) && e is Validation && e->Validation_0@
            == "conversation adapter package version must be SemVer: "@ + semver_parse_error(
            trim(version@),
        )->0),
{
    let v = validated_package_version(version)?;
    let versions = join_path(&chars_of(package_root), &chars_of("versions"));
    Ok(string_of(&join_path(&versions, &chars_of(v.as_str()))))
}

/// The resolved install directory of a version delete must be the resolved
/// version directory itself.
pub fn check_managed_version_target(canonical_install_dir: &str, canonical_expected: &str) -> (r: AppResult<()>)
    ensures
        same_path(canonical_install_dir@, canonical_expected@) ==> r is Ok,
        !same_path(canonical_install_dir@, canonical_expected@) ==> (r matches Err(e) && e is Validation
            && e->Validation_0@
            == "conversation adapter version delete target is not the requested managed version directory"@),
{
    let a = path_components(&chars_of(canonical_install_dir));
    let b = path_components(&chars_of(canonical_expected));
    if same_components(&a, &b) {
        Ok(())
    } else {
        Err(AppError::Validation(String::from_str(
            "conversation adapter version delete target is not the requested managed version directory",
        )))
    }
}

/// A delete target that passes the last check lies below the managed
/// packages folder, at least two levels down: inside a package root, never
/// the package root or the packages folder itself.
pub proof fn law_accepted_delete_target_inside_packages(
    canonical_packages_root: Seq<char>,
    canonical_package_root: Seq<char>,
    canonical_install_dir: Seq<char>,
)
    ensures
        (is_parent_dir(canonical_package_root, canonical_packages_root) && !same_path(
            canonical_install_dir,
            canonical_package_root,
        ) && path_starts_with(canonical_install_dir, canonical_package_root)) ==> {
            &&& path_starts_with(canonical_install_dir, canonical_packages_root)
            &&& components(canonical_install_dir).len() >= components(canonical_packages_root).len() + 2
        },
{
    let i = components(canonical_install_dir);
    let p = components(canonical_package_root);
    let b = components(canonical_packages_root);
    if is_parent_dir(canonical_package_root, canonical_packages_root) && !same_path(
        canonical_install_dir,
        canonical_package_root,
    ) && path_starts_with(canonical_install_dir, canonical_package_root) {
        assert(p.drop_last() == b);
        assert(i.subrange(0, p.len() as int) == p);
        if i.len() == p.len() {
            assert(i =~= i.subrange(0, p.len() as int));
        }
        assert(i.subrange(0, b.len() as int) =~= p.subrange(0, b.len() as int));
        assert(p.subrange(0, b.len() as int) =~= b);
    }
}

} // verus!
