use cap_dirs::fs;
use cap_dirs::fs_utf8;
use cap_dirs::handle::DirHandle;

#[test]
fn recursive_flag_round_trips() {
    let mut b = fs_utf8::DirBuilder::new();
    b.recursive(true);
    assert!(b.is_recursive());
    b.recursive(false);
    assert!(!b.is_recursive());

    let mut c = fs::DirBuilder::new();
    c.recursive(true);
    assert!(c.is_recursive());
    c.recursive(false);
    assert!(!c.is_recursive());
}

#[test]
fn unix_mode_stored_verbatim() {
    let mut b = fs_utf8::DirBuilder::new();
    b.mode(0o750);
    assert_eq!(b.unix_mode(), Some(0o750));
    b.mode(0);
    assert_eq!(b.unix_mode(), Some(0));
    b.mode(u32::MAX);
    assert_eq!(b.unix_mode(), Some(u32::MAX));

    let mut c = fs::DirBuilder::new();
    c.mode(0o777);
    assert_eq!(c.unix_mode(), Some(0o777));
}

#[test]
fn new_is_non_recursive_with_no_mode() {
    let b = fs_utf8::DirBuilder::new();
    assert!(!b.is_recursive());
    assert_eq!(b.unix_mode(), None);

    let c = fs::DirBuilder::new();
    assert!(!c.is_recursive());
    assert_eq!(c.unix_mode(), None);
}

#[test]
fn builder_chains_fluently() {
    let mut b = fs_utf8::DirBuilder::new();
    b.recursive(true).mode(0o700);
    assert!(b.is_recursive());
    assert_eq!(b.unix_mode(), Some(0o700));
    // re-invoking a setter fully replaces the prior value
    b.mode(0o755).recursive(false);
    assert!(!b.is_recursive());
    assert_eq!(b.unix_mode(), Some(0o755));
}

#[test]
fn cap_std_round_trip_preserves_configuration() {
    let cases: Vec<(bool, Option<u32>)> =
        vec![(false, None), (true, None), (false, Some(0o700)), (true, Some(u32::MAX)), (true, Some(0))];
    for (rec, mode) in cases {
        let mut b = fs_utf8::DirBuilder::new();
        b.recursive(rec);
        if let Some(m) = mode {
            b.mode(m);
        }
        let inner = b.into_cap_std();
        assert_eq!(inner.is_recursive(), rec);
        assert_eq!(inner.unix_mode(), mode);
        let back = fs_utf8::DirBuilder::from_cap_std(inner);
        assert_eq!(back.is_recursive(), rec);
        assert_eq!(back.unix_mode(), mode);
    }
}

#[test]
fn wrap_then_unwrap_preserves_configuration() {
    let mut inner = fs::DirBuilder::new();
    inner.recursive(true).mode(0o511);
    let wrapped = fs_utf8::DirBuilder::from_cap_std(inner);
    assert!(wrapped.is_recursive());
    assert_eq!(wrapped.unix_mode(), Some(0o511));
    let unwrapped = wrapped.into_cap_std();
    assert!(unwrapped.is_recursive());
    assert_eq!(unwrapped.unix_mode(), Some(0o511));
}

#[test]
fn default_equals_explicit_non_recursive() {
    let a = fs_utf8::DirBuilder::new();
    let mut b = fs_utf8::DirBuilder::new();
    b.recursive(false);
    assert_eq!(a.is_recursive(), b.is_recursive());
    assert_eq!(a.unix_mode(), b.unix_mode());

    // consumed on identical handles, the two act identically: one plain
    // directory, no mode recorded
    let mut h1 = DirHandle::new(true);
    let mut h2 = DirHandle::new(true);
    let path = vec![String::from("top")];
    assert_eq!(h1.create_directory_tree(&path, &a), Ok(()));
    assert_eq!(h2.create_directory_tree(&path, &b), Ok(()));
    assert_eq!(h1.dir_count(), 1);
    assert_eq!(h2.dir_count(), 1);
    assert_eq!(h1.dir_path_at(0), h2.dir_path_at(0));
    assert_eq!(h1.dir_mode_at(0), None);
    assert_eq!(h2.dir_mode_at(0), None);
}
