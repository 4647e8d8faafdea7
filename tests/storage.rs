use forge::error::TransferError;
use forge::storage::{repository_slug_ok, VcsStorage};

#[test]
fn ensuring_a_root_twice_gives_the_same_path() {
    let mut s = VcsStorage::new("/srv/repos".to_string());
    assert_eq!(s.ensure_repository_directory("widgets"), Ok("/srv/repos/widgets".to_string()));
    assert_eq!(s.ensure_repository_directory("widgets"), Ok("/srv/repos/widgets".to_string()));
    assert_eq!(s.get_repository_path("widgets"), Ok("/srv/repos/widgets".to_string()));
}

#[test]
fn malformed_slugs_never_become_paths() {
    let mut s = VcsStorage::new("/srv/repos".to_string());
    for bad in ["", ".", "..", "../etc", "acme/widgets", "Widgets", "a b"] {
        assert_eq!(s.ensure_repository_directory(bad), Err(TransferError::InvalidSlug));
        assert!(!repository_slug_ok(bad));
    }
    assert!(repository_slug_ok("a.b_c-9"));
    assert!(repository_slug_ok("..."));
}

#[test]
fn unknown_repository_has_no_root() {
    let s = VcsStorage::new("/srv/repos".to_string());
    assert_eq!(s.get_repository_path("widgets"), Err(TransferError::NotFound));
    assert_eq!(s.get_repository_path("BAD"), Err(TransferError::InvalidSlug));
}

#[test]
fn deleting_a_root_unregisters_it() {
    let mut s = VcsStorage::new("/srv/repos".to_string());
    s.ensure_repository_directory("widgets").unwrap();
    s.ensure_repository_directory("gadgets").unwrap();
    assert_eq!(s.delete_repository_root("widgets"), Ok("/srv/repos/widgets".to_string()));
    assert_eq!(s.get_repository_path("widgets"), Err(TransferError::NotFound));
    assert_eq!(s.get_repository_path("gadgets"), Ok("/srv/repos/gadgets".to_string()));
    assert_eq!(s.delete_repository_root("widgets"), Err(TransferError::NotFound));
}
