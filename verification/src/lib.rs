//! Ingestion of published source-package archives into a content-addressed,
//! linear version-control history.
//!
//! The crate classifies every file carried by a package archive, computes a
//! version-control blob digest for it, normalizes its destination path, and
//! emits kept files through a fast-import stream writer that produces a
//! byte-exact, resumable import stream.  A capacity-bounded shard index
//! records which packages of a batch have been completed so that work can be
//! resumed and partitioned.

pub mod archive;
pub mod content;
pub mod data;
pub mod extract;
pub mod git;
pub mod github_data;
pub mod repository;
pub mod text;
