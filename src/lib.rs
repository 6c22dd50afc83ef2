//! Assembles a single commit from a working tree: content ids in the
//! git object scheme, detection of files the remote tree already holds,
//! candidate selection, destination paths, conflict and mode checks, and
//! the decision whether a commit is needed at all.

pub mod content;
pub mod paths;
pub mod error;
pub mod plan;
pub mod select;
pub mod tree;
pub mod options;
