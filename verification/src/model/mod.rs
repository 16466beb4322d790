pub mod transaction_validator;
pub mod tips_view_model;
pub mod transaction_requester;
pub mod walk;
pub mod ledger_validator;
pub mod tips_manager;
pub mod config;
