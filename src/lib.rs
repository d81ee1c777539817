//! Lexical scanner for a small imperative scripting language.

pub mod scanner;
pub mod text;
pub mod token;

pub use scanner::{scan, ScanError};
pub use token::{to_kind, to_string, Kind, Token};
