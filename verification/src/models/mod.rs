pub mod filter;
pub mod log_entry;
