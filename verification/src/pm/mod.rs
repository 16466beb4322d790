pub mod error;
pub mod serializable;
pub mod sized;
pub mod ser;
pub mod de;
