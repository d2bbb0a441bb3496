//! Scans a directory tree for version-controlled repositories, matches each
//! repository's origin remote URL against an old domain substring, and
//! validates a rewrite of that URL to a new domain.
//!
//! The library works on a plain model of what the filesystem and the
//! version-control tool showed: a `DirNode` tree of directories and the
//! captured outcome of tool invocations. Callers perform the actual
//! directory reads and subprocess calls and hand the observed values in.

pub mod replace;
pub mod scan;
pub mod strings;
pub mod tool;
pub mod tree;
