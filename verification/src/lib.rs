pub mod clock;
pub mod config;
pub mod diagnostics;
pub mod export;
pub mod journal;
pub mod models;
pub mod processing;
pub mod text;
pub mod ui;
pub mod utils;
