//! Readers of styled input formats.
pub mod ansi;
