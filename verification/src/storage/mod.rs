pub mod balances;
pub mod snapshot;
pub mod hive;
pub mod hashes;
pub mod keyed;
pub mod snapshot_file;
