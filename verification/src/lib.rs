//! Project snapshotting for content-managed sites: bundles a database export
//! and an uploads tree into a single tagged snapshot, resolves bundles by
//! project identity and content branch, and reconciles a local uploads
//! directory against a target bundle.
//!
//! The backup engine, the content-management tool and all file, network and
//! process I/O live outside this crate; this library holds the bundling
//! protocol, the tag grammar, the selection and safety rules, and proves them.

pub mod bundle;
pub mod cli;
pub mod definition;
pub mod engine;
pub mod errors;
pub mod facts;
pub mod paths;
pub mod project;
pub mod reconcile;
pub mod select;
pub mod snapshot;
pub mod stash;
pub mod stats;
pub mod strutil;
pub mod tags;
