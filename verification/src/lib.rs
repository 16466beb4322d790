//! The ledger logic of a DAG-based cryptocurrency node, verified with Verus: the
//! PM wire codec, transactions and their checks, tip selection, the ledger's
//! balances and snapshots, token contracts, and the decisions of the node's
//! network loops.

pub mod pm;
pub mod network;
pub mod transaction;
pub mod model;
pub mod storage;
pub mod consensus;
