//! Verified building blocks of the template benchmark and comparison tools:
//! decimal formatting and parsing, the generated template sources, command-line
//! handling, report formatting and output comparison.

pub mod decimal;
pub mod text;
pub mod templates;
pub mod cli;
pub mod compare;
pub mod bench;
