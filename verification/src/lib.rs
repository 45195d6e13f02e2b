//! A synchronization and reconciliation engine for a local collection of
//! mod archives: it fingerprints files by content, rebuilds a snapshot of
//! the collection from scanned directory contents while preserving
//! previously learned remote linkage, resolves each entry's update status
//! against a remote registry through a hash-lookup cache, and folds
//! installed files back into the snapshot.
//!
//! Filesystem and network work stays with the caller: the library takes
//! plain values (paths, bytes, parse outcomes, fetched version records) and
//! returns plain values, so that every decision the engine makes is stated
//! in a contract and proved.

pub mod engine;
pub mod hash;
pub mod install;
pub mod minecraft_path;
pub mod mod_entry;
pub mod snapshot;
pub mod update;
