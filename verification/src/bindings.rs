//! Handles for callers in other languages.

pub mod settings;
