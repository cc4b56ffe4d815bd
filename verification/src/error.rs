//! The startup error taxonomy. Every error raised during the startup
//! sequence is fatal: the application must not serve its interface over an
//! unknown or partially initialized store.

use vstd::prelude::*;

verus! {

/// What can go fatally wrong while the stores are brought up.
#[derive(Debug, PartialEq, Eq)]
pub enum StartupError {
    /// A schema statement failed to execute; the failed version is not
    /// recorded as applied.
    MigrationApply { version: u64 },
    /// The store's recorded version exceeds the highest version known to
    /// the running binary: a downgrade scenario.
    MigrationVersionSkew { store_version: u64, highest_known: u64 },
    /// The backing document or structured store could not be opened or
    /// created.
    StoreOpen,
    /// A preference write failed to reach durable storage.
    PersistenceWrite { key: String },
}

} // verus!
