//! Renderers, which turn a syntax tree into output.

pub mod handle;
pub mod html;
pub mod json;
pub mod text;
