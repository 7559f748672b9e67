use cap_dirs::fs_utf8::DirBuilder;
use cap_dirs::handle::CreationError;
use cap_dirs::handle::DirHandle;

fn recursive_builder() -> DirBuilder {
    let mut b = DirBuilder::new();
    b.recursive(true);
    b
}

#[test]
fn existing_directory_non_recursive_fails_recursive_succeeds() {
    let mut h = DirHandle::new(true);
    let path = vec![String::from("d")];
    let nonrec = DirBuilder::new();
    assert_eq!(h.create_directory_tree(&path, &nonrec), Ok(()));
    // the directory now exists: non-recursive creation fails ...
    assert_eq!(h.create_directory_tree(&path, &nonrec), Err(CreationError::AlreadyExists));
    // ... recursive creation of the same path succeeds
    assert_eq!(h.create_directory_tree(&path, &recursive_builder()), Ok(()));
    assert_eq!(h.dir_count(), 1);
}

#[test]
fn recursive_creates_missing_components_in_order() {
    let mut h = DirHandle::new(true);
    let a = vec![String::from("a")];
    assert_eq!(h.create_directory_tree(&a, &DirBuilder::new()), Ok(()));

    let abc = vec![String::from("a"), String::from("b"), String::from("c")];
    let rec = recursive_builder();
    assert_eq!(h.create_directory_tree(&abc, &rec), Ok(()));
    // exactly `a/b` then `a/b/c` were created, in that order
    assert_eq!(h.dir_count(), 3);
    let ab = vec![String::from("a"), String::from("b")];
    assert_eq!(h.dir_path_at(1), &ab);
    assert_eq!(h.dir_path_at(2), &abc);
    assert!(h.contains_dir(&ab));
    assert!(h.contains_dir(&abc));
    // the call succeeds exactly once: repeating it changes nothing
    assert_eq!(h.create_directory_tree(&abc, &rec), Ok(()));
    assert_eq!(h.dir_count(), 3);
}

#[test]
fn root_always_exists() {
    let mut h = DirHandle::new(true);
    let root: Vec<String> = Vec::new();
    assert!(h.contains_dir(&root));
    assert_eq!(h.create_directory_tree(&root, &DirBuilder::new()), Err(CreationError::AlreadyExists));
    assert_eq!(h.create_directory_tree(&root, &recursive_builder()), Ok(()));
    assert_eq!(h.dir_count(), 0);
}

#[test]
fn parent_reference_violates_capability_boundary() {
    let mut h = DirHandle::new(true);
    let p = vec![String::from(".."), String::from("x")];
    assert_eq!(
        h.create_directory_tree(&p, &DirBuilder::new()),
        Err(CreationError::CapabilityBoundaryViolation)
    );
    assert_eq!(
        h.create_directory_tree(&p, &recursive_builder()),
        Err(CreationError::CapabilityBoundaryViolation)
    );
    let deep = vec![String::from("a"), String::from("..")];
    assert_eq!(
        h.create_directory_tree(&deep, &recursive_builder()),
        Err(CreationError::CapabilityBoundaryViolation)
    );
    assert_eq!(h.dir_count(), 0);
}

#[test]
fn malformed_components_are_io_errors() {
    let mut h = DirHandle::new(true);
    assert_eq!(h.create_directory_tree(&vec![String::new()], &DirBuilder::new()), Err(CreationError::Io));
    assert_eq!(h.create_directory_tree(&vec![String::from(".")], &recursive_builder()), Err(CreationError::Io));
    assert_eq!(h.dir_count(), 0);
}

#[test]
fn missing_parent_non_recursive_is_io_error() {
    let mut h = DirHandle::new(true);
    let p = vec![String::from("a"), String::from("b")];
    assert_eq!(h.create_directory_tree(&p, &DirBuilder::new()), Err(CreationError::Io));
    assert_eq!(h.dir_count(), 0);
}

#[test]
fn read_only_handle_denies_creation() {
    let mut h = DirHandle::new(false);
    assert!(!h.writable());
    let p = vec![String::from("a")];
    assert_eq!(h.create_directory_tree(&p, &DirBuilder::new()), Err(CreationError::PermissionDenied));
    assert_eq!(h.create_directory_tree(&p, &recursive_builder()), Err(CreationError::PermissionDenied));
    // recursive creation of what already exists creates nothing, so it
    // needs no permission
    assert_eq!(h.create_directory_tree(&Vec::new(), &recursive_builder()), Ok(()));
    assert_eq!(h.dir_count(), 0);
}

#[test]
fn non_directory_blocks_creation() {
    let mut h = DirHandle::new(true);
    let f = vec![String::from("notes")];
    assert_eq!(h.create_file(&f), Ok(()));
    assert!(h.contains_file(&f));
    assert!(!h.contains_dir(&f));
    // the target itself exists as a non-directory
    assert_eq!(
        h.create_directory_tree(&f, &DirBuilder::new()),
        Err(CreationError::AlreadyExistsAsNonDirectory)
    );
    assert_eq!(
        h.create_directory_tree(&f, &recursive_builder()),
        Err(CreationError::AlreadyExistsAsNonDirectory)
    );
    // a non-directory on the way blocks a recursive descent
    let deep = vec![String::from("notes"), String::from("inner")];
    assert_eq!(
        h.create_directory_tree(&deep, &recursive_builder()),
        Err(CreationError::AlreadyExistsAsNonDirectory)
    );
    assert_eq!(h.dir_count(), 0);
}

#[test]
fn file_creation_follows_the_same_rules() {
    let mut h = DirHandle::new(true);
    let f = vec![String::from("log")];
    assert_eq!(h.create_file(&f), Ok(()));
    assert_eq!(h.create_file(&f), Err(CreationError::AlreadyExistsAsNonDirectory));
    assert_eq!(h.create_file(&Vec::new()), Err(CreationError::AlreadyExists));
    assert_eq!(h.create_file(&vec![String::from("a"), String::from("b")]), Err(CreationError::Io));
    assert_eq!(h.create_file(&vec![String::from("..")]), Err(CreationError::CapabilityBoundaryViolation));
    assert_eq!(h.create_file(&vec![String::from(".")]), Err(CreationError::Io));
    let mut readonly = DirHandle::new(false);
    assert_eq!(readonly.create_file(&f), Err(CreationError::PermissionDenied));
}

#[test]
fn requested_mode_recorded_on_every_created_directory() {
    let mut h = DirHandle::new(true);
    let mut rec = DirBuilder::new();
    rec.recursive(true).mode(0o750);
    let ab = vec![String::from("a"), String::from("b")];
    assert_eq!(h.create_directory_tree(&ab, &rec), Ok(()));
    assert_eq!(h.dir_count(), 2);
    assert_eq!(h.dir_mode_at(0), Some(0o750));
    assert_eq!(h.dir_mode_at(1), Some(0o750));

    // a later creation records its own mode and touches nothing already made
    let mut plain = DirBuilder::new();
    plain.mode(0o500);
    let ad = vec![String::from("a"), String::from("d")];
    assert_eq!(h.create_directory_tree(&ad, &plain), Ok(()));
    assert_eq!(h.dir_mode_at(0), Some(0o750));
    assert_eq!(h.dir_mode_at(2), Some(0o500));
}

#[test]
fn unicode_components_are_plain_names() {
    let mut h = DirHandle::new(true);
    let p = vec![String::from("düsseldorf"), String::from("ホーム")];
    assert_eq!(h.create_directory_tree(&p, &recursive_builder()), Ok(()));
    assert_eq!(h.dir_count(), 2);
    assert!(h.contains_dir(&p));
}
