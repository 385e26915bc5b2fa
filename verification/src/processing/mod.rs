pub mod cache;
pub mod debounce;
pub mod pipeline;
pub mod search;
pub mod sort;
pub mod view;
pub mod watch;
