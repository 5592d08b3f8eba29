use tronctl::error::TronCtlError;
use tronctl::extractor::{
    check_entry_path, has_dotdot_component, is_contained, join_entry_path, validate_entry_paths,
};

#[test]
fn parent_component_entries_are_rejected() {
    for path in [
        b"../etc/passwd".to_vec(),
        b"a/../../etc/passwd".to_vec(),
        b"a/b/..".to_vec(),
        b"..".to_vec(),
        b"a/../b".to_vec(),
    ] {
        match check_entry_path(&path) {
            Err(TronCtlError::IoError(_)) => {}
            other => panic!("{:?} should be rejected, got {:?}", path, other),
        }
    }
}

#[test]
fn absolute_entries_are_rejected() {
    assert!(check_entry_path(&b"/etc/passwd".to_vec()).is_err());
    assert!(check_entry_path(&b"/".to_vec()).is_err());
    assert!(check_entry_path(&b"".to_vec()).is_err());
}

#[test]
fn dotted_but_safe_names_pass() {
    assert!(check_entry_path(&b"a/b/c.txt".to_vec()).is_ok());
    assert!(check_entry_path(&b"..a/file".to_vec()).is_ok());
    assert!(check_entry_path(&b"a..b/file".to_vec()).is_ok());
    assert!(check_entry_path(&b"a/...".to_vec()).is_ok());
    assert!(check_entry_path(&b"output-directory/database/block".to_vec()).is_ok());
}

#[test]
fn dotdot_detection_is_component_wise() {
    assert!(has_dotdot_component(&b"..".to_vec()));
    assert!(has_dotdot_component(&b"x/../y".to_vec()));
    assert!(!has_dotdot_component(&b"x..y".to_vec()));
    assert!(!has_dotdot_component(&b"...".to_vec()));
}

#[test]
fn safe_entries_resolve_under_destination() {
    let dest = b"/var/lib/tronctl/data".to_vec();
    let entry = b"output-directory/database/block0".to_vec();
    assert!(check_entry_path(&entry).is_ok());
    let target = join_entry_path(&dest, &entry);
    assert_eq!(
        target,
        b"/var/lib/tronctl/data/output-directory/database/block0".to_vec()
    );
    assert!(is_contained(&dest, &target));
}

#[test]
fn escaped_locations_are_caught() {
    let dest = b"/var/lib/tronctl/data".to_vec();
    assert!(!is_contained(&dest, &b"/var/lib/tronctl/data-evil/x".to_vec()));
    assert!(!is_contained(&dest, &b"/etc/passwd".to_vec()));
    assert!(!is_contained(&dest, &b"/var/lib".to_vec()));
    assert!(is_contained(&dest, &b"/var/lib/tronctl/data".to_vec()));
    assert!(is_contained(&dest, &b"/var/lib/tronctl/data/x".to_vec()));
}

#[test]
fn one_bad_entry_aborts_the_archive() {
    let good = vec![b"a/b".to_vec(), b"c".to_vec()];
    assert!(validate_entry_paths(&good).is_ok());

    let mixed = vec![b"a/b".to_vec(), b"../../etc/shadow".to_vec(), b"c".to_vec()];
    assert!(validate_entry_paths(&mixed).is_err());
}
