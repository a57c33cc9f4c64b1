//! Inline comment inference for lines of Python-like source code.
pub mod text;
pub mod splitter;
pub mod engine;
pub mod driver;
