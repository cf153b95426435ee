//! An in-memory projection of a nested directory tree of car setups:
//! category and subcategory folders resolved against a static catalog,
//! leaf files validated and listed per subcategory. A scanner builds
//! immutable snapshots from a raw record of a directory walk, a cache
//! owns the last-known-good snapshot, and a filter decides which
//! filesystem events warrant a fresh scan.
pub mod data;
pub mod diag;
pub mod errors;
pub mod models;
pub mod order;
pub mod scan;
pub mod state;
pub mod text;
pub mod watch;
