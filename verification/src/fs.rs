use vstd::prelude::*;

use crate::config::DirConfig;

verus! {

/// A builder used to create directories in various manners.
///
/// The builder carries pure configuration. It holds no path, no handle and no
/// filesystem reference, so a builder alone can create nothing: directory
/// creation requires a capability, and the builder is only passed to a
/// capability handle's creation operation (see
/// [`DirHandle::create_directory_tree`](crate::handle::DirHandle::create_directory_tree)).
pub struct DirBuilder {
    pub(crate) config: DirConfig,
}

impl DirBuilder {
    /// Whether the consuming operation creates missing intermediate
    /// directories.
    pub closed spec fn spec_recursive(self) -> bool {
        self.config.recursive
    }

    /// The permission bits the consuming operation is asked to apply to each
    /// directory it creates; `None` asks for the platform default.
    pub closed spec fn spec_unix_mode(self) -> Option<u32> {
        self.config.unix_mode
    }

    /// Creates a new set of options: non-recursive, with default mode.
    pub fn new() -> (r: Self)
        ensures
            !r.spec_recursive(),
            r.spec_unix_mode() is None,
    {
        Self { config: DirConfig { recursive: false, unix_mode: None } }
    }

    /// Indicates whether directories should be created recursively, creating
    /// all intermediate directories. The new value fully replaces the prior
    /// one; the requested mode is untouched.
    pub fn recursive(&mut self, recursive: bool) -> (r: &mut Self)
        ensures
            r.spec_recursive() == recursive,
            r.spec_unix_mode() == old(self).spec_unix_mode(),
            *final(self) == *final(r),
    {
        self.config.recursive = recursive;
        self
    }

    /// Requests the given POSIX permission bits for every directory the
    /// consuming operation creates. Any 32-bit value is accepted and stored
    /// verbatim: the builder masks and validates nothing. The new value fully
    /// replaces the prior one; the recursive flag is untouched.
    pub fn mode(&mut self, mode: u32) -> (r: &mut Self)
        ensures
            r.spec_unix_mode() == Some(mode),
            r.spec_recursive() == old(self).spec_recursive(),
            *final(self) == *final(r),
    {
        self.config.unix_mode = Some(mode);
        self
    }

    /// Returns whether directories will be created recursively.
    pub fn is_recursive(&self) -> (r: bool)
        ensures
            r == self.spec_recursive(),
    {
        self.config.recursive
    }

    /// Returns the permission bits requested so far, exactly as stored, or
    /// `None` when none were requested.
    pub fn unix_mode(&self) -> (r: Option<u32>)
        ensures
            r == self.spec_unix_mode(),
    {
        self.config.unix_mode
    }
}

/// A builder is nothing but its configuration: two builders that agree on
/// `recursive` and `unix_mode` are the same value, so one can stand for the
/// other wherever a creation operation consumes them. In particular, a fresh
/// builder equals a fresh builder whose recursive flag was explicitly set to
/// `false`.
pub proof fn lemma_config_determines_builder(a: DirBuilder, b: DirBuilder)
    requires
        a.spec_recursive() == b.spec_recursive(),
        a.spec_unix_mode() == b.spec_unix_mode(),
    ensures
        a == b,
{
    assert(a.config == b.config);
}

} // verus!
