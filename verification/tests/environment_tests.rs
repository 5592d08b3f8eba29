use tronctl::environment::{
    check_root, disk_free_gb_from, get_disk_free_space, is_root, java_version_ok, judge_root,
    mount_governs, EnvironmentChecker,
};
use tronctl::error::TronCtlError;

#[test]
fn test_is_root_consistency() {
    let root1 = is_root();
    let root2 = is_root();
    assert_eq!(root1, root2);
}

#[test]
fn test_check_root_consistency() {
    let result1 = check_root();
    let result2 = check_root();
    assert_eq!(result1.is_ok(), result2.is_ok());
}

#[test]
fn test_check_root_matches_is_root() {
    let is_root_result = is_root();
    let check_root_result = check_root();

    if is_root_result {
        assert!(check_root_result.is_ok());
    } else {
        assert!(check_root_result.is_err());
        if let Err(e) = check_root_result {
            assert!(matches!(e, TronCtlError::InsufficientPermissions));
        }
    }
}

#[test]
fn root_judgment_is_exact() {
    assert!(judge_root(true).is_ok());
    assert!(matches!(
        judge_root(false),
        Err(TronCtlError::InsufficientPermissions)
    ));
}

#[test]
fn test_get_disk_free_space() {
    let space = get_disk_free_space("/tmp");
    assert!(space < u64::MAX);
}

#[test]
fn test_get_disk_free_space_root() {
    let space = get_disk_free_space("/");
    assert!(space < u64::MAX);
}

#[test]
fn first_governing_mount_is_measured() {
    const GIB: u64 = 1024 * 1024 * 1024;
    let mounts = vec![
        ("/".to_string(), 10 * GIB),
        ("/var".to_string(), 200 * GIB),
    ];
    // Listing order decides: `/` governs every absolute path and is listed
    // first.
    assert_eq!(disk_free_gb_from(&mounts, "/var/lib"), 10);

    let mounts2 = vec![
        ("/boot".to_string(), GIB),
        ("/var".to_string(), 200 * GIB),
    ];
    assert_eq!(disk_free_gb_from(&mounts2, "/var/lib"), 200);
    assert_eq!(disk_free_gb_from(&mounts2, "/home"), 0);
}

#[test]
fn mount_governing_is_component_wise() {
    assert!(mount_governs("/var/lib", "/"));
    assert!(mount_governs("/var/lib", "/var"));
    assert!(mount_governs("/var", "/var"));
    assert!(mount_governs("/var/lib", "/var/"));
    assert!(!mount_governs("/variant", "/var"));
    assert!(!mount_governs("/var", "/var/lib"));
}

#[test]
fn java_version_line_recognition() {
    assert!(java_version_ok("java version \"1.8.0_312\""));
    assert!(java_version_ok("openjdk version \"8\" 2021-01-19"));
    assert!(!java_version_ok("openjdk version \"11.0.2\" 2019-01-15"));
    assert!(!java_version_ok(""));
}

#[test]
fn java_check_judges_the_report() {
    assert!(EnvironmentChecker::check_java_version(&Some(
        "java version \"1.8.0_312\"".to_string()
    ))
    .is_ok());

    let wrong = EnvironmentChecker::check_java_version(&Some(
        "openjdk version \"11.0.2\"".to_string(),
    ));
    assert!(matches!(
        wrong,
        Err(TronCtlError::IncompatibleJavaVersion { .. })
    ));

    let missing = EnvironmentChecker::check_java_version(&None);
    assert!(matches!(missing, Err(TronCtlError::ConfigError(_))));
}

#[test]
fn headroom_warnings_follow_recommendations() {
    assert!(EnvironmentChecker::memory_short(16));
    assert!(!EnvironmentChecker::memory_short(32));
    assert!(EnvironmentChecker::disk_short(100));
    assert!(!EnvironmentChecker::disk_short(2560));
}

#[test]
fn measured_values_are_plausible() {
    let mem = EnvironmentChecker::check_memory();
    assert!(mem < 1024 * 1024);
    let disk = EnvironmentChecker::check_disk_space();
    assert!(disk < u64::MAX);
}
