//! A YAML-style configuration document exposed as a read-only virtual
//! filesystem: the document tree, path resolution, the handle table and the
//! filesystem operations, all verified.

pub mod data;
pub mod error;
pub mod file_handle;
pub mod fs;
pub mod laws;
pub mod path;
pub mod shared;

