//! Normalization of wikitext before it is tokenized.
//!
//! Six rewrite rules are applied in a fixed order, each until the text holds
//! no further match of it:
//! * DOS newlines become plain newlines,
//! * legacy Mac newlines become plain newlines,
//! * lines made of whitespace alone are emptied,
//! * a backslash at the end of a line joins the line to the next,
//! * tabs become four spaces,
//! * three or more newlines in a row shrink to two.

pub mod laws;
pub mod matcher;
pub mod rewrite;
pub mod whitespace;

pub use self::whitespace::substitute;
