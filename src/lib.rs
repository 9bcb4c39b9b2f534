//! A comment scanner: splits source text into classified spans of code and
//! comments, driven by a language profile of comment delimiters.

pub mod profile;
pub mod span;
pub mod scanner;
pub mod laws;
pub mod user;
