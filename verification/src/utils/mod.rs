pub mod colors;
