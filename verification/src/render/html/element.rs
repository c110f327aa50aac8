//! HTML rendering of single elements.

pub mod input;
pub mod user;
