pub mod live;
pub mod parser;
pub mod reader;
pub mod stream;
