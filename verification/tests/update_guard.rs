use heddle::update_guard::{verify_bundle_is_newer, BundleVersionError};

#[test]
fn an_older_staged_bundle_is_refused() {
    let result = verify_bundle_is_newer(Some("v0.3.2"), Some("0.3.1"));
    assert!(
        result.is_err(),
        "a staged bundle older than the running build must be refused, however well signed"
    );
}

#[test]
fn an_identical_staged_bundle_is_refused() {
    assert!(
        verify_bundle_is_newer(Some("v0.3.2"), Some("0.3.2")).is_err(),
        "reinstalling the running version is not an update"
    );
}

#[test]
fn a_newer_staged_bundle_is_accepted() {
    verify_bundle_is_newer(Some("v0.3.1"), Some("0.3.2"))
        .expect("a newer bundle must be accepted, or no update could ever install");
}

#[test]
fn a_bundle_with_an_unreadable_version_is_refused() {
    assert_eq!(
        verify_bundle_is_newer(Some("v0.3.1"), None),
        Err(BundleVersionError::UnreadableStagedVersion),
        "a bundle with no readable version must be refused"
    );
}

#[test]
fn a_bundle_carrying_an_unparseable_version_is_refused() {
    assert_eq!(
        verify_bundle_is_newer(Some("v0.3.1"), Some("v0.2026.07.26.18.00.stable_01")),
        Err(BundleVersionError::UnparseableStagedVersion {
            version: "v0.2026.07.26.18.00.stable_01".to_string()
        }),
        "an unparseable bundle version must be refused, not assumed newer"
    );
}

#[test]
fn an_unknown_running_version_refuses_every_bundle() {
    assert_eq!(
        verify_bundle_is_newer(None, Some("9.9.9")),
        Err(BundleVersionError::UnknownRunningVersion)
    );
    assert_eq!(
        verify_bundle_is_newer(Some("garbage"), Some("9.9.9")),
        Err(BundleVersionError::UnknownRunningVersion)
    );
}

#[test]
fn a_refusal_names_both_versions() {
    assert_eq!(
        verify_bundle_is_newer(Some("v1.0.0"), Some("0.10.0")),
        Err(BundleVersionError::NotNewer {
            running: "v1.0.0".to_string(),
            staged: "0.10.0".to_string()
        })
    );
    assert!(verify_bundle_is_newer(Some("0.9.0"), Some("0.10.0")).is_ok());
}
