pub mod analyzer;
pub mod power_audit;
pub mod result;
