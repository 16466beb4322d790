pub mod packet;
pub mod rpc;
pub mod replicator_new;
pub mod api;
pub mod node;
pub mod neighbor;
