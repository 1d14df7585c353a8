use vors_core::version::hash_string;
use vors_core::version::is_nightly;
use vors_core::version::is_stable;
use vors_core::version::is_version_compatible;
use vors_core::version::protocol_id;
use vors_core::version::VersionInfo;

fn v(major: u64, minor: u64, patch: u64, pre: &str, build: &str) -> VersionInfo {
    VersionInfo {
        major,
        minor,
        patch,
        pre: pre.to_string(),
        build: build.to_string(),
    }
}

#[test]
fn hash_is_deterministic() {
    assert_eq!(hash_string("vors"), hash_string("vors"));
    assert_ne!(hash_string("vors"), hash_string("vorr"));
    assert_eq!(hash_string(""), hash_string(""));
}

#[test]
fn nightly_is_read_from_build_metadata() {
    assert!(is_nightly(&v(20, 0, 0, "", "nightly.2024.01.02")));
    assert!(is_nightly(&v(20, 0, 0, "", "nightly")));
    assert!(!is_nightly(&v(20, 0, 0, "", "")));
    assert!(!is_nightly(&v(20, 0, 0, "", "night")));
    assert!(!is_nightly(&v(20, 0, 0, "rc.1", "release")));
}

#[test]
fn stable_means_no_prerelease_and_no_nightly() {
    assert!(is_stable(&v(18, 2, 3, "", "")));
    assert!(!is_stable(&v(18, 2, 3, "beta.1", "")));
    assert!(!is_stable(&v(18, 2, 3, "", "nightly.1")));
    assert!(!is_stable(&v(18, 2, 3, "rc.2", "nightly.1")));
}

#[test]
fn protocol_id_follows_major_and_prerelease_only() {
    // Semver-compatible versions share a protocol identifier.
    assert_eq!(
        protocol_id(&v(18, 0, 0, "", "")),
        protocol_id(&v(18, 4, 7, "", "build.5"))
    );
    // A different major number changes it.
    assert_ne!(
        protocol_id(&v(18, 0, 0, "", "")),
        protocol_id(&v(19, 0, 0, "", ""))
    );
    // A prerelease tag changes it too.
    assert_ne!(
        protocol_id(&v(18, 0, 0, "", "")),
        protocol_id(&v(18, 0, 0, "beta.1", ""))
    );
    assert_ne!(
        protocol_id(&v(18, 0, 0, "beta.1", "")),
        protocol_id(&v(18, 0, 0, "beta.2", ""))
    );
}

#[test]
fn compatibility_is_protocol_id_equality() {
    let mine = v(20, 1, 0, "", "");
    assert!(is_version_compatible(&mine, &v(20, 9, 9, "", "nightly.x")));
    assert!(!is_version_compatible(&mine, &v(21, 1, 0, "", "")));
    assert!(!is_version_compatible(&mine, &v(20, 1, 0, "alpha", "")));
    let pre = v(20, 1, 0, "rc.3", "");
    assert!(is_version_compatible(&pre, &v(20, 0, 0, "rc.3", "")));
}
