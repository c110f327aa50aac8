//! The plain text renderer.

pub mod context;
pub mod elements;
pub mod render;

pub use self::render::TextRender;
