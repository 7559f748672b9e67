//! Capability-scoped directory creation.
//!
//! A [`fs_utf8::DirBuilder`] accumulates the options for one create-directory
//! operation: whether missing intermediate directories are created, and which
//! POSIX permission bits, if any, to apply to each directory created. The
//! builder is pure configuration: it holds no path and no filesystem
//! reference, so it grants no authority of its own. All mutation authority
//! belongs to a capability handle ([`handle::DirHandle`]), which consumes the
//! builder through its creation operation.

mod config;
pub mod fs;
pub mod fs_utf8;
pub mod handle;
