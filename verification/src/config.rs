use vstd::prelude::*;

verus! {

/// The one configuration record shared by the two builder faces: whether
/// missing intermediate directories are created, and which POSIX permission
/// bits, if any, the consumer is asked to apply to each directory it creates.
/// `None` means the platform default applies.
pub(crate) struct DirConfig {
    pub(crate) recursive: bool,
    pub(crate) unix_mode: Option<u32>,
}

} // verus!
