use dap::{get_spec_version, Version};

#[test]
fn test_version_display() {
    let version = Version {
        major: 1,
        minor: 62,
        patch: None,
        git_commit: "7f284b169ecd19602487eb4d290ae651d4398ce7".to_string(),
    };
    assert_eq!(version.to_string(), "1.62.x");

    let version = Version {
        major: 1,
        minor: 62,
        patch: Some(1),
        git_commit: "7f284b169ecd19602487eb4d290ae651d4398ce7".to_string(),
    };
    assert_eq!(version.to_string(), "1.62.1");
}

#[test]
fn version_display_with_negative_and_large_parts() {
    let version = Version {
        major: -3,
        minor: 1000,
        patch: Some(i64::MIN),
        git_commit: String::new(),
    };
    assert_eq!(version.to_string(), "-3.1000.-9223372036854775808");
}

#[test]
fn spec_version_is_1_62_x() {
    let version = get_spec_version();
    assert_eq!(version.major, 1);
    assert_eq!(version.minor, 62);
    assert_eq!(version.patch, None);
    assert_eq!(version.git_commit, "7f284b169ecd19602487eb4d290ae651d4398ce7");
    assert_eq!(version.to_string(), "1.62.x");
}
