pub mod environment;
pub mod error;
pub mod expr;
pub mod stmt;
pub mod text;
pub mod token;
pub mod types;
