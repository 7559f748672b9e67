use vstd::prelude::*;

verus! {

/// A builder used to create directories in various manners, for creation
/// operations that take UTF-8 paths.
///
/// This is a thin face over [`crate::fs::DirBuilder`], the equivalent builder
/// for non-UTF-8 creation operations: the two faces share one configuration,
/// and converting between them loses nothing. Like the inner builder, this
/// type has no create operation of its own, because creating directories
/// requires a capability; pass it to
/// [`DirHandle::create_directory_tree`](crate::handle::DirHandle::create_directory_tree).
pub struct DirBuilder {
    pub(crate) cap_std: crate::fs::DirBuilder,
}

impl DirBuilder {
    /// Whether the consuming operation creates missing intermediate
    /// directories.
    pub closed spec fn spec_recursive(self) -> bool {
        self.cap_std.spec_recursive()
    }

    /// The permission bits the consuming operation is asked to apply to each
    /// directory it creates; `None` asks for the platform default.
    pub closed spec fn spec_unix_mode(self) -> Option<u32> {
        self.cap_std.spec_unix_mode()
    }

    /// The underlying builder this face would unwrap to.
    pub closed spec fn spec_into_cap_std(self) -> crate::fs::DirBuilder {
        self.cap_std
    }

    /// The face that wrapping the given underlying builder yields.
    pub closed spec fn spec_from_cap_std(cap_std: crate::fs::DirBuilder) -> DirBuilder {
        DirBuilder { cap_std }
    }

    /// Constructs a new instance of `Self` by wrapping the given underlying
    /// builder, preserving its configuration exactly.
    pub fn from_cap_std(cap_std: crate::fs::DirBuilder) -> (r: Self)
        ensures
            r == Self::spec_from_cap_std(cap_std),
            r.spec_recursive() == cap_std.spec_recursive(),
            r.spec_unix_mode() == cap_std.spec_unix_mode(),
    {
        Self { cap_std }
    }

    /// Unwraps this face into the underlying builder, reproducing the
    /// identical configuration.
    pub fn into_cap_std(self) -> (r: crate::fs::DirBuilder)
        ensures
            r == self.spec_into_cap_std(),
            r.spec_recursive() == self.spec_recursive(),
            r.spec_unix_mode() == self.spec_unix_mode(),
    {
        self.cap_std
    }

    /// Creates a new set of options: non-recursive, with default mode.
    pub fn new() -> (r: Self)
        ensures
            !r.spec_recursive(),
            r.spec_unix_mode() is None,
    {
        Self { cap_std: crate::fs::DirBuilder::new() }
    }

    /// Indicates whether directories should be created recursively, creating
    /// all intermediate directories. The new value fully replaces the prior
    /// one; the requested mode is untouched.
    pub fn recursive(&mut self, recursive: bool) -> (r: &mut Self)
        ensures
            r.spec_recursive() == recursive,
            r.spec_unix_mode() == old(self).spec_unix_mode(),
            *final(self) == *final(r),
    {
        self.cap_std.recursive(recursive);
        self
    }

    /// Requests the given POSIX permission bits for every directory the
    /// consuming operation creates. Any 32-bit value is accepted and stored
    /// verbatim: the builder masks and validates nothing. The new value fully
    /// replaces the prior one; the recursive flag is untouched.
    pub fn mode(&mut self, mode: u32) -> (r: &mut Self)
        ensures
            r.spec_unix_mode() == Some(mode),
            r.spec_recursive() == old(self).spec_recursive(),
            *final(self) == *final(r),
    {
        self.cap_std.mode(mode);
        self
    }

    /// Returns whether directories will be created recursively.
    pub fn is_recursive(&self) -> (r: bool)
        ensures
            r == self.spec_recursive(),
    {
        self.cap_std.is_recursive()
    }

    /// Returns the permission bits requested so far, exactly as stored, or
    /// `None` when none were requested.
    pub fn unix_mode(&self) -> (r: Option<u32>)
        ensures
            r == self.spec_unix_mode(),
    {
        self.cap_std.unix_mode()
    }
}

/// Round trip, unwrapping first: unwrapping a builder into its underlying
/// equivalent and wrapping the result again yields the original builder, with
/// `recursive` and `unix_mode` intact, whatever their values.
pub proof fn lemma_cap_std_round_trip(u: DirBuilder)
    ensures
        DirBuilder::spec_from_cap_std(u.spec_into_cap_std()) == u,
        DirBuilder::spec_from_cap_std(u.spec_into_cap_std()).spec_recursive() == u.spec_recursive(),
        DirBuilder::spec_from_cap_std(u.spec_into_cap_std()).spec_unix_mode() == u.spec_unix_mode(),
{
}

/// Round trip, wrapping first: wrapping an underlying builder and unwrapping
/// the result reproduces the identical underlying builder, with `recursive`
/// and `unix_mode` intact, whatever their values.
pub proof fn lemma_from_cap_std_round_trip(b: crate::fs::DirBuilder)
    ensures
        DirBuilder::spec_from_cap_std(b).spec_into_cap_std() == b,
        DirBuilder::spec_from_cap_std(b).spec_recursive() == b.spec_recursive(),
        DirBuilder::spec_from_cap_std(b).spec_unix_mode() == b.spec_unix_mode(),
{
}

/// As for the underlying builder: a UTF-8 builder is nothing but its
/// configuration, so two that agree on `recursive` and `unix_mode` are the
/// same value. In particular, a fresh builder equals a fresh builder whose
/// recursive flag was explicitly set to `false`.
pub proof fn lemma_config_determines_builder(a: DirBuilder, b: DirBuilder)
    requires
        a.spec_recursive() == b.spec_recursive(),
        a.spec_unix_mode() == b.spec_unix_mode(),
    ensures
        a == b,
{
    crate::fs::lemma_config_determines_builder(a.cap_std, b.cap_std);
}

} // verus!
