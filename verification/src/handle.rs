use vstd::prelude::*;

verus! {

/// The errors a capability handle's creation operations report. The builder
/// itself is infallible; every failure belongs to the consuming operation.
#[derive(Clone, Copy, Debug, PartialEq, Eq, Structural)]
pub enum CreationError {
    /// The target already exists as a directory.
    AlreadyExists,
    /// The target, or a path component on the way to it, exists but is not a
    /// directory.
    AlreadyExistsAsNonDirectory,
    /// A path component refers to the parent directory. The handle resolves
    /// no parent references, so such a path could escape the authorized root.
    CapabilityBoundaryViolation,
    /// The handle was opened without permission to mutate.
    PermissionDenied,
    /// Any other failure: a component that is empty or `.`, or a missing
    /// parent for a non-recursive creation.
    Io,
}

/// One directory of the handle's subtree, at specification level: its path
/// below the authorized root and the permission bits recorded when it was
/// created, `None` for the platform default.
pub ghost struct DirRecord {
    pub path: Seq<Seq<char>>,
    pub mode: Option<u32>,
}

/// Whether `log` holds a directory record for path `p`.
pub open spec fn log_has(log: Seq<DirRecord>, p: Seq<Seq<char>>) -> bool {
    exists|i: int| 0 <= i < log.len() && log[i].path == p
}

/// Whether some component of `p` refers to the parent directory.
pub open spec fn refers_to_parent(p: Seq<Seq<char>>) -> bool {
    exists|i: int| 0 <= i < p.len() && p[i] == ".."@
}

/// Whether some component of `p` is empty or refers to the directory itself:
/// neither names a directory that could be created.
pub open spec fn has_malformed_component(p: Seq<Seq<char>>) -> bool {
    exists|i: int| 0 <= i < p.len() && (p[i].len() == 0 || p[i] == "."@)
}

struct DirEntry {
    path: Vec<String>,
    mode: Option<u32>,
}

/// A capability-scoped directory handle: pre-authorized access to one
/// directory subtree, and the sole authority that creates anything in it.
///
/// The handle keeps a model of its subtree: which paths below its root exist
/// as directories (with the permission bits recorded for each at creation),
/// and which exist but are not directories. Paths are sequences of UTF-8
/// components, relative to the root; the root itself always exists as a
/// directory. The handle resolves no path components: a component that is
/// empty or `.` cannot be created, and `..` is refused outright since it
/// could escape the authorized root.
pub struct DirHandle {
    dirs: Vec<DirEntry>,
    files: Vec<Vec<String>>,
    writable: bool,
}

impl DirHandle {
    /// The directories below the root, in creation order, each with the
    /// permission bits recorded for it.
    pub closed spec fn dirs_log(self) -> Seq<DirRecord> {
        self.dirs@.map_values(|e: DirEntry| DirRecord { path: e.path.deep_view(), mode: e.mode })
    }

    /// The non-directory entries below the root, in creation order.
    pub closed spec fn files_log(self) -> Seq<Seq<Seq<char>>> {
        self.files.deep_view()
    }

    /// Whether the handle may mutate its subtree.
    pub closed spec fn spec_writable(self) -> bool {
        self.writable
    }

    /// Whether `p` exists as a directory: the root (the empty path) always
    /// does, everything else exactly when the log holds it.
    pub open spec fn is_dir(self, p: Seq<Seq<char>>) -> bool {
        p.len() == 0 || log_has(self.dirs_log(), p)
    }

    /// Whether `p` exists as a non-directory.
    pub open spec fn is_file(self, p: Seq<Seq<char>>) -> bool {
        exists|i: int| 0 <= i < self.files_log().len() && self.files_log()[i] == p
    }

    /// Whether every strict prefix of `p` exists as a directory.
    pub open spec fn parents_exist(self, p: Seq<Seq<char>>) -> bool {
        forall|i: int| 1 <= i < p.len() ==> self.is_dir(#[trigger] p.take(i))
    }

    /// Whether some prefix of `p`, the whole path included, exists as a
    /// non-directory and so blocks a recursive creation.
    pub open spec fn blocked_by_file(self, p: Seq<Seq<char>>) -> bool {
        exists|i: int| 1 <= i <= p.len() && self.is_file(#[trigger] p.take(i))
    }

    /// The prefixes of `p` that do not yet exist as directories, shortest
    /// first, each paired with the mode to record: exactly what a recursive
    /// creation brings into being, parent strictly before child.
    pub open spec fn missing_prefixes(self, p: Seq<Seq<char>>, mode: Option<u32>) -> Seq<DirRecord>
        decreases p.len(),
    {
        if p.len() == 0 {
            Seq::empty()
        } else {
            let shorter = self.missing_prefixes(p.drop_last(), mode);
            if self.is_dir(p) {
                shorter
            } else {
                shorter.push(DirRecord { path: p, mode })
            }
        }
    }

    /// The exact result of asking this handle to create `p`, recursively or
    /// not. Checks are made in this order: a parent reference anywhere in the
    /// path is a boundary violation; an empty or `.` component cannot be
    /// created; then, non-recursively, the target must not exist in any form
    /// and every strict prefix must already be a directory, while
    /// recursively, a target that already is a directory is success with
    /// nothing to do and only a non-directory in the way is fatal; finally,
    /// creating anything requires a writable handle.
    pub open spec fn create_outcome(self, p: Seq<Seq<char>>, recursive: bool) -> Result<
        (),
        CreationError,
    > {
        if refers_to_parent(p) {
            Err(CreationError::CapabilityBoundaryViolation)
        } else if has_malformed_component(p) {
            Err(CreationError::Io)
        } else if recursive {
            if self.is_dir(p) {
                Ok(())
            } else if self.blocked_by_file(p) {
                Err(CreationError::AlreadyExistsAsNonDirectory)
            } else if !self.spec_writable() {
                Err(CreationError::PermissionDenied)
            } else {
                Ok(())
            }
        } else {
            if self.is_dir(p) {
                Err(CreationError::AlreadyExists)
            } else if self.is_file(p) {
                Err(CreationError::AlreadyExistsAsNonDirectory)
            } else if !self.parents_exist(p) {
                Err(CreationError::Io)
            } else if !self.spec_writable() {
                Err(CreationError::PermissionDenied)
            } else {
                Ok(())
            }
        }
    }

    /// The directories a successful creation of `p` adds to the log, in
    /// order: recursively, every prefix not yet a directory (none when the
    /// target already exists); non-recursively, the target alone.
    pub open spec fn created_dirs(
        self,
        p: Seq<Seq<char>>,
        recursive: bool,
        mode: Option<u32>,
    ) -> Seq<DirRecord> {
        if recursive {
            if self.is_dir(p) {
                Seq::empty()
            } else {
                self.missing_prefixes(p, mode)
            }
        } else {
            seq![DirRecord { path: p, mode }]
        }
    }

    /// A fresh handle over an empty subtree: only the root exists.
    pub fn new(writable: bool) -> (r: Self)
        ensures
            r.dirs_log() == Seq::<DirRecord>::empty(),
            r.files_log() == Seq::<Seq<Seq<char>>>::empty(),
            r.spec_writable() == writable,
    {
        let r = DirHandle { dirs: Vec::new(), files: Vec::new(), writable };
        proof {
            assert(r.dirs_log() =~= Seq::<DirRecord>::empty());
            assert(r.files_log() =~= Seq::<Seq<Seq<char>>>::empty());
        }
        r
    }

    /// Whether the handle may mutate its subtree.
    pub fn writable(&self) -> (r: bool)
        ensures
            r == self.spec_writable(),
    {
        self.writable
    }

    /// How many directories the handle has in its log.
    pub fn dir_count(&self) -> (r: usize)
        ensures
            r == self.dirs_log().len(),
    {
        self.dirs.len()
    }

    /// The path of the `i`th directory in the log, in creation order.
    pub fn dir_path_at(&self, i: usize) -> (r: &Vec<String>)
        requires
            i < self.dirs_log().len(),
        ensures
            r.deep_view() == self.dirs_log()[i as int].path,
    {
        &self.dirs[i].path
    }

    /// The permission bits recorded for the `i`th directory in the log.
    pub fn dir_mode_at(&self, i: usize) -> (r: Option<u32>)
        requires
            i < self.dirs_log().len(),
        ensures
            r == self.dirs_log()[i as int].mode,
    {
        self.dirs[i].mode
    }

    fn find_dir_prefix(&self, path: &Vec<String>, n: usize) -> (r: bool)
        requires
            n <= path@.len(),
        ensures
            r == self.is_dir(path.deep_view().take(n as int)),
    {
        if n == 0 {
            return true;
        }
        let mut i: usize = 0;
        while i < self.dirs.len()
            invariant
                n >= 1,
                n <= path@.len(),
                i <= self.dirs@.len(),
                forall|k: int|
                    0 <= k < i ==> self.dirs_log()[k].path != path.deep_view().take(n as int),
            decreases self.dirs@.len() - i,
        {
            if matches_prefix(&self.dirs[i].path, path, n) {
                proof {
                    assert(self.dirs_log()[i as int].path == path.deep_view().take(n as int));
                }
                return true;
            }
            i += 1;
        }
        false
    }

    fn find_file_prefix(&self, path: &Vec<String>, n: usize) -> (r: bool)
        requires
            n <= path@.len(),
        ensures
            r == self.is_file(path.deep_view().take(n as int)),
    {
        let mut i: usize = 0;
        while i < self.files.len()
            invariant
                n <= path@.len(),
                i <= self.files@.len(),
                forall|k: int|
                    0 <= k < i ==> self.files_log()[k] != path.deep_view().take(n as int),
            decreases self.files@.len() - i,
        {
            if matches_prefix(&self.files[i], path, n) {
                proof {
                    assert(self.files_log()[i as int] == path.deep_view().take(n as int));
                }
                return true;
            }
            i += 1;
        }
        false
    }

    /// Whether `path` exists as a directory below the root. The root, written
    /// as the empty path, always does.
    pub fn contains_dir(&self, path: &Vec<String>) -> (r: bool)
        ensures
            r == self.is_dir(path.deep_view()),
    {
        proof {
            assert(path.deep_view().take(path@.len() as int) =~= path.deep_view());
        }
        self.find_dir_prefix(path, path.len())
    }

    /// Whether `path` exists below the root but is not a directory.
    pub fn contains_file(&self, path: &Vec<String>) -> (r: bool)
        ensures
            r == self.is_file(path.deep_view()),
    {
        proof {
            assert(path.deep_view().take(path@.len() as int) =~= path.deep_view());
        }
        self.find_file_prefix(path, path.len())
    }

    fn check_parents(&self, path: &Vec<String>) -> (r: bool)
        ensures
            r == self.parents_exist(path.deep_view()),
    {
        if path.len() == 0 {
            return true;
        }
        let mut i: usize = 1;
        while i < path.len()
            invariant
                1 <= i <= path@.len(),
                forall|k: int| 1 <= k < i ==> self.is_dir(#[trigger] path.deep_view().take(k)),
            decreases path@.len() - i,
        {
            if !self.find_dir_prefix(path, i) {
                return false;
            }
            i += 1;
        }
        true
    }

    fn check_blocking_file(&self, path: &Vec<String>) -> (r: bool)
        ensures
            r == self.blocked_by_file(path.deep_view()),
    {
        let mut i: usize = 0;
        while i < path.len()
            invariant
                i <= path@.len(),
                forall|k: int| 1 <= k <= i ==> !self.is_file(#[trigger] path.deep_view().take(k)),
            decreases path@.len() - i,
        {
            if self.find_file_prefix(path, i + 1) {
                return true;
            }
            i += 1;
        }
        false
    }

    /// Creates a directory tree rooted at this handle, as the given options
    /// ask: non-recursively, the one directory `path` names, which must be
    /// new and whose parent must exist; recursively, every missing prefix of
    /// `path`, parent before child, tolerating prefixes that already exist as
    /// directories. The requested permission bits are recorded on every
    /// directory created by the call, and on no other. The handle's
    /// non-directory entries and its write permission never change.
    pub fn create_directory_tree(
        &mut self,
        path: &Vec<String>,
        options: &crate::fs_utf8::DirBuilder,
    ) -> (r: Result<(), CreationError>)
        ensures
            r == old(self).create_outcome(path.deep_view(), options.spec_recursive()),
            r == Ok::<(), CreationError>(()) ==> final(self).dirs_log() == old(self).dirs_log()
                + old(self).created_dirs(
                path.deep_view(),
                options.spec_recursive(),
                options.spec_unix_mode(),
            ),
            r == Ok::<(), CreationError>(()) ==> final(self).is_dir(path.deep_view()),
            r is Err ==> *final(self) == *old(self),
            final(self).files_log() == old(self).files_log(),
            final(self).spec_writable() == old(self).spec_writable(),
    {
        let ghost s0 = *self;
        let ghost pv = path.deep_view();
        let ghost m = options.spec_unix_mode();
        if path_refers_to_parent(path) {
            return Err(CreationError::CapabilityBoundaryViolation);
        }
        if path_has_malformed_component(path) {
            return Err(CreationError::Io);
        }
        if options.is_recursive() {
            if self.contains_dir(path) {
                proof {
                    assert(self.dirs_log() + Seq::<DirRecord>::empty() =~= self.dirs_log());
                }
                return Ok(());
            }
            if self.check_blocking_file(path) {
                return Err(CreationError::AlreadyExistsAsNonDirectory);
            }
            if !self.writable {
                return Err(CreationError::PermissionDenied);
            }
            let n = path.len();
            let mode_opt = options.unix_mode();
            let mut i: usize = 0;
            proof {
                assert(pv.take(0) =~= Seq::<Seq<char>>::empty());
                assert(s0.missing_prefixes(pv.take(0), m) =~= Seq::<DirRecord>::empty());
                assert(self.dirs_log() =~= s0.dirs_log() + s0.missing_prefixes(pv.take(0), m));
            }
            while i < n
                invariant
                    i <= n,
                    n == pv.len(),
                    pv == path.deep_view(),
                    mode_opt == m,
                    self.files_log() == s0.files_log(),
                    self.spec_writable() == s0.spec_writable(),
                    self.dirs_log() == s0.dirs_log() + s0.missing_prefixes(pv.take(i as int), m),
                decreases n - i,
            {
                proof {
                    lemma_missing_prefixes_short(s0, pv.take(i as int), m);
                    assert(pv.take(i + 1).len() == i + 1);
                    lemma_log_has_append_shorter(
                        s0.dirs_log(),
                        s0.missing_prefixes(pv.take(i as int), m),
                        pv.take(i + 1),
                    );
                }
                let present = self.find_dir_prefix(path, i + 1);
                proof {
                    assert(present == log_has(self.dirs_log(), pv.take(i + 1)));
                    assert(present == log_has(s0.dirs_log(), pv.take(i + 1)));
                    assert(present == s0.is_dir(pv.take(i + 1)));
                    lemma_missing_prefixes_take_step(s0, pv, m, i + 1);
                }
                if !present {
                    let prefix = clone_path_prefix(path, i + 1);
                    let ghost pre = *self;
                    self.dirs.push(DirEntry { path: prefix, mode: mode_opt });
                    proof {
                        assert(self.dirs@.len() == pre.dirs@.len() + 1);
                        assert(self.dirs_log() =~= pre.dirs_log().push(
                            (DirRecord { path: pv.take(i + 1), mode: m }),
                        ));
                        assert(self.dirs_log() =~= s0.dirs_log() + s0.missing_prefixes(
                            pv.take(i + 1),
                            m,
                        ));
                    }
                }
                i += 1;
            }
            proof {
                assert(pv.take(n as int) =~= pv);
                assert(!s0.is_dir(pv));
                assert(pv.len() > 0);
                assert(s0.missing_prefixes(pv, m) == s0.missing_prefixes(pv.drop_last(), m).push(
                    (DirRecord { path: pv, mode: m }),
                ));
                assert(self.dirs_log()[self.dirs_log().len() - 1].path == pv);
            }
            Ok(())
        } else {
            if self.contains_dir(path) {
                return Err(CreationError::AlreadyExists);
            }
            if self.contains_file(path) {
                return Err(CreationError::AlreadyExistsAsNonDirectory);
            }
            if !self.check_parents(path) {
                return Err(CreationError::Io);
            }
            if !self.writable {
                return Err(CreationError::PermissionDenied);
            }
            let target = clone_path_prefix(path, path.len());
            self.dirs.push(DirEntry { path: target, mode: options.unix_mode() });
            proof {
                assert(pv.take(pv.len() as int) =~= pv);
                assert(self.dirs_log() =~= s0.dirs_log() + seq![
                    (DirRecord { path: pv, mode: m }),
                ]);
                assert(self.dirs_log()[self.dirs_log().len() - 1].path == pv);
            }
            Ok(())
        }
    }

    /// Records a non-directory entry at `path`, under the same rules as a
    /// non-recursive directory creation: the target must be new, its parent
    /// must exist, and the handle must be writable. This is how anything
    /// other than a directory comes to exist in the model subtree.
    pub fn create_file(&mut self, path: &Vec<String>) -> (r: Result<(), CreationError>)
        ensures
            r == old(self).create_outcome(path.deep_view(), false),
            r == Ok::<(), CreationError>(()) ==> final(self).files_log() == old(
                self,
            ).files_log().push(path.deep_view()),
            r is Err ==> *final(self) == *old(self),
            final(self).dirs_log() == old(self).dirs_log(),
            final(self).spec_writable() == old(self).spec_writable(),
    {
        let ghost s0 = *self;
        let ghost pv = path.deep_view();
        if path_refers_to_parent(path) {
            return Err(CreationError::CapabilityBoundaryViolation);
        }
        if path_has_malformed_component(path) {
            return Err(CreationError::Io);
        }
        if self.contains_dir(path) {
            return Err(CreationError::AlreadyExists);
        }
        if self.contains_file(path) {
            return Err(CreationError::AlreadyExistsAsNonDirectory);
        }
        if !self.check_parents(path) {
            return Err(CreationError::Io);
        }
        if !self.writable {
            return Err(CreationError::PermissionDenied);
        }
        let target = clone_path_prefix(path, path.len());
        self.files.push(target);
        proof {
            assert(pv.take(pv.len() as int) =~= pv);
            assert(self.files_log() =~= s0.files_log().push(pv));
        }
        Ok(())
    }
}

/// True exactly of the component that refers to the parent directory.
fn is_parent_component(c: &String) -> (r: bool)
    ensures
        r == (c@ == ".."@),
{
    let p: String = "..".to_owned();
    c.eq(&p)
}

/// True exactly of a component no directory can be created under: the empty
/// component or the one that refers to the directory itself.
fn is_malformed_component(c: &String) -> (r: bool)
    ensures
        r == (c@.len() == 0 || c@ == "."@),
{
    if c.as_str().is_empty() {
        return true;
    }
    let d: String = ".".to_owned();
    c.eq(&d)
}

fn path_refers_to_parent(path: &Vec<String>) -> (r: bool)
    ensures
        r == refers_to_parent(path.deep_view()),
{
    let mut i: usize = 0;
    while i < path.len()
        invariant
            i <= path@.len(),
            forall|j: int| 0 <= j < i ==> path.deep_view()[j] != ".."@,
        decreases path@.len() - i,
    {
        if is_parent_component(&path[i]) {
            proof {
                assert(path.deep_view()[i as int] == ".."@);
            }
            return true;
        }
        i += 1;
    }
    false
}

fn path_has_malformed_component(path: &Vec<String>) -> (r: bool)
    ensures
        r == has_malformed_component(path.deep_view()),
{
    let mut i: usize = 0;
    while i < path.len()
        invariant
            i <= path@.len(),
            forall|j: int|
                0 <= j < i ==> !(path.deep_view()[j].len() == 0 || path.deep_view()[j] == "."@),
        decreases path@.len() - i,
    {
        if is_malformed_component(&path[i]) {
            proof {
                assert(path.deep_view()[i as int].len() == 0 || path.deep_view()[i as int]
                    == "."@);
            }
            return true;
        }
        i += 1;
    }
    false
}

/// Compares a stored path against the first `n` components of `path`.
fn matches_prefix(stored: &Vec<String>, path: &Vec<String>, n: usize) -> (r: bool)
    requires
        n <= path@.len(),
    ensures
        r == (stored.deep_view() == path.deep_view().take(n as int)),
{
    if stored.len() != n {
        return false;
    }
    let mut j: usize = 0;
    while j < n
        invariant
            j <= n,
            n <= path@.len(),
            stored@.len() == n,
            forall|k: int| 0 <= k < j ==> stored.deep_view()[k] == path.deep_view()[k],
        decreases n - j,
    {
        if !stored[j].eq(&path[j]) {
            proof {
                assert(stored.deep_view()[j as int] != path.deep_view().take(n as int)[j as int]);
            }
            return false;
        }
        j += 1;
    }
    proof {
        assert(stored.deep_view() =~= path.deep_view().take(n as int));
    }
    true
}

/// Clones the first `n` components of `path`.
fn clone_path_prefix(path: &Vec<String>, n: usize) -> (r: Vec<String>)
    requires
        n <= path@.len(),
    ensures
        r.deep_view() == path.deep_view().take(n as int),
{
    let mut r: Vec<String> = Vec::new();
    let mut j: usize = 0;
    while j < n
        invariant
            j <= n,
            n <= path@.len(),
            r@.len() == j,
            forall|k: int| 0 <= k < j ==> r.deep_view()[k] == path.deep_view()[k],
        decreases n - j,
    {
        r.push(path[j].clone());
        j += 1;
    }
    proof {
        assert(r.deep_view() =~= path.deep_view().take(n as int));
    }
    r
}

/// Every record a recursive creation would add is a prefix of `p`, so no
/// longer than `p` itself.
proof fn lemma_missing_prefixes_short(s: DirHandle, p: Seq<Seq<char>>, mode: Option<u32>)
    ensures
        forall|k: int|
            0 <= k < s.missing_prefixes(p, mode).len() ==> (#[trigger] s.missing_prefixes(
                p,
                mode,
            )[k]).path.len() <= p.len(),
    decreases p.len(),
{
    if p.len() > 0 {
        lemma_missing_prefixes_short(s, p.drop_last(), mode);
    }
}

/// Appending records whose paths are all shorter than `p` neither adds nor
/// removes a record for `p`.
proof fn lemma_log_has_append_shorter(log: Seq<DirRecord>, extra: Seq<DirRecord>, p: Seq<Seq<char>>)
    requires
        forall|k: int| 0 <= k < extra.len() ==> (#[trigger] extra[k]).path.len() < p.len(),
    ensures
        log_has(log + extra, p) == log_has(log, p),
{
    if log_has(log, p) {
        let i = choose|i: int| 0 <= i < log.len() && log[i].path == p;
        assert((log + extra)[i].path == p);
    }
    if log_has(log + extra, p) {
        let i = choose|i: int| 0 <= i < (log + extra).len() && (log + extra)[i].path == p;
        if i < log.len() {
            assert(log[i].path == p);
        } else {
            assert(extra[i - log.len()].path == p);
            assert(false);
        }
    }
}

/// Unfolds `missing_prefixes` one component at a time along `p`.
proof fn lemma_missing_prefixes_take_step(
    s: DirHandle,
    p: Seq<Seq<char>>,
    mode: Option<u32>,
    i: int,
)
    requires
        1 <= i <= p.len(),
    ensures
        s.missing_prefixes(p.take(i), mode) == if s.is_dir(p.take(i)) {
            s.missing_prefixes(p.take(i - 1), mode)
        } else {
            s.missing_prefixes(p.take(i - 1), mode).push(DirRecord { path: p.take(i), mode })
        },
{
    assert(p.take(i).drop_last() =~= p.take(i - 1));
    assert(p.take(i).len() == i);
}

} // verus!

