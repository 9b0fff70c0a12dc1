use assetiweave::error::AppError;
use assetiweave::package_delete::{
    check_managed_package_delete_request, check_managed_package_root, check_managed_version_target,
    managed_version_dir, resolve_managed_package_root,
};

const ROOT: &str = "/tmp/assetiweave-package-delete-test";

fn validate_managed_package_delete_target(
    managed_root: &str,
    package_id: &str,
    install_dir: &str,
    canonical_install_dir: &str,
) -> Result<String, AppError> {
    let packages_root = check_managed_package_delete_request(managed_root, package_id, install_dir, true)?;
    let package_root =
        resolve_managed_package_root(&packages_root, &packages_root, canonical_install_dir, install_dir)?;
    check_managed_package_root(&packages_root, &package_root, canonical_install_dir, &package_root)?;
    Ok(package_root)
}

fn external_install_dir_case() {
    let managed_root = format!("{ROOT}/conversation-adapters");
    let external_dir = format!("{ROOT}/external/current");
    let result = validate_managed_package_delete_target(&managed_root, "publisher.package", &external_dir, &external_dir);
    assert!(result.is_err());
}

fn symlink_escape_case() {
    let managed_root = format!("{ROOT}/conversation-adapters");
    let package_root = format!("{managed_root}/packages/publisher.package");
    let current = format!("{package_root}/current");
    let external_dir = format!("{ROOT}/external");
    let result = validate_managed_package_delete_target(&managed_root, "publisher.package", &current, &external_dir);
    assert!(result.is_err());
}

#[test]
fn conversation_script_catalog_managed_package_delete_target_rejects_external_install_dir() {
    external_install_dir_case();
}

#[test]
fn conversation_script_catalog_tests_managed_package_delete_target_rejects_external_install_dir() {
    external_install_dir_case();
}

#[test]
fn conversation_script_catalog_managed_package_delete_target_rejects_symlink_escape() {
    symlink_escape_case();
}

#[test]
fn conversation_script_catalog_tests_managed_package_delete_target_rejects_symlink_escape() {
    symlink_escape_case();
}

#[test]
fn managed_package_delete_accepts_a_directory_inside_its_package_root() {
    let managed_root = format!("{ROOT}/conversation-adapters");
    let current = format!("{managed_root}/packages/publisher.package/current");
    let result = validate_managed_package_delete_target(&managed_root, " publisher.package ", &current, &current);
    assert_eq!(result.unwrap(), format!("{managed_root}/packages/publisher.package"));
}

#[test]
fn package_ids_must_be_one_plain_segment() {
    for id in ["", "  ", ".", "..", "a/b", "/a", "./a"] {
        match check_managed_package_delete_request("/m", id, "/m/packages/a", true) {
            Err(AppError::Validation(message)) => assert_eq!(
                message,
                format!("conversation adapter package id is not a safe path segment: {}", id.trim())
            ),
            _ => panic!("unsafe package id accepted: {id:?}"),
        }
    }
    assert_eq!(check_managed_package_delete_request("/m", "a", "/m/packages/a", true).unwrap(), "/m/packages");
    match check_managed_package_delete_request("/m", "a", "/m/packages/a", false) {
        Err(AppError::Validation(message)) => assert_eq!(
            message,
            "conversation adapter package delete target does not exist in the managed library: /m/packages/a"
        ),
        _ => panic!("a missing install directory must be refused"),
    }
    assert!(check_managed_package_delete_request("/m", "a", "/m/packagesx/a", true).is_err());
}

#[test]
fn package_root_is_the_first_component_below_the_packages_folder() {
    assert_eq!(
        resolve_managed_package_root("/m/packages", "/real/packages", "/real/packages/p/versions/1.0.0", "/m/x").unwrap(),
        "/m/packages/p"
    );
    match resolve_managed_package_root("/m/packages", "/real/packages", "/elsewhere/p", "/m/x") {
        Err(AppError::Other(message)) => assert_eq!(
            message,
            "conversation adapter package install directory escapes the managed library: /m/x"
        ),
        _ => panic!("an escaping install directory must be refused"),
    }
    match resolve_managed_package_root("/m/packages", "/real/packages", "/real/packages", "/m/x") {
        Err(AppError::Other(message)) => {
            assert_eq!(message, "conversation adapter package install directory has no package root")
        }
        _ => panic!("the packages folder itself has no package root"),
    }
    match check_managed_package_root("/real/packages", "/real/packages/p", "/real/packages/p", "/m/packages/p") {
        Err(AppError::Validation(message)) => assert_eq!(
            message,
            "conversation adapter package root escapes the managed library: /m/packages/p"
        ),
        _ => panic!("deleting the package root itself must be refused"),
    }
    assert!(check_managed_package_root("/real/packages", "/real/other/p", "/real/other/p/v", "/m/packages/p").is_err());
}

#[test]
fn version_delete_targets_the_requested_version_directory() {
    assert_eq!(managed_version_dir("/m/packages/p", " 1.2.3 ").unwrap(), "/m/packages/p/versions/1.2.3");
    match managed_version_dir("/m/packages/p", "latest") {
        Err(AppError::Validation(message)) => {
            assert!(message.starts_with("conversation adapter package version must be SemVer: "))
        }
        _ => panic!("a non-SemVer version must be refused"),
    }
    assert!(check_managed_version_target("/r/p/versions/1.2.3", "/r/p/versions/1.2.3/").is_ok());
    match check_managed_version_target("/r/p/versions/1.2.3", "/r/p/versions/1.2.4") {
        Err(AppError::Validation(message)) => assert_eq!(
            message,
            "conversation adapter version delete target is not the requested managed version directory"
        ),
        _ => panic!("another version directory must be refused"),
    }
}
