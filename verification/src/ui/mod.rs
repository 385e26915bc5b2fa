pub mod navigation;
pub mod presentation;
