pub mod transaction;
pub mod milestone;
pub mod decimal;
pub mod contract;
pub mod contracts_manager;
