//! A pretty-printer for structured data: a generic tagged value tree is
//! rendered with indentation, optional key sorting, depth and string
//! truncation, and optional ANSI styling; a dotted/bracket path language
//! extracts subtrees; compact mode emits the minimal single-line encoding.

pub mod cli;
pub mod config;
pub mod error;
pub mod formatter;
pub mod output;
pub mod path;
pub mod text;
pub mod theme;
pub mod value;

pub use error::JsonfizzError;
