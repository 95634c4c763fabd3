pub mod account;
pub mod amount;
pub mod bank;
pub mod entry;
pub mod laws;
pub mod records;
