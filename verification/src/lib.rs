//! Maintenance of TAR-style archives under upsert semantics.
//!
//! The container format has no in-place mutation primitive: every update of
//! an existing entry is a full rewrite with selective carry-over of the
//! untouched entries, staged in a scratch location and atomically installed.
//! This crate holds the decision logic of that engine — classifying input
//! paths into archive members, ordering the pending member set, and deciding
//! which old entries survive a rewrite — with contracts that pin each step
//! down.  The surrounding I/O (reading directories, streaming the container,
//! the final rename) is left to the binary built on top of this library.

pub mod application;
pub mod archive;
pub mod collect;
pub mod error;
pub mod merge;
pub mod mode;
pub mod paths;
mod seq_facts;

pub use application::Application;
pub use archive::Brotli;
pub use archive::Tar;
pub use error::ArchiveError;
pub use mode::Mode;
