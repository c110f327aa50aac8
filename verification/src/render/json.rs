//! A renderer that writes the syntax tree as JSON.

pub mod compose;
pub mod model;
pub mod render;
pub mod value;

pub use self::render::JsonRender;
