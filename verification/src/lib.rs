//! Parser and renderers for Wikidot-style wikitext.
//!
//! Wikitext is turned into a syntax tree in three steps: the text is
//! normalized ([`preproc`]), split into tokens ([`parsing::tokenize`]) and
//! parsed by rules that backtrack ([`parsing`]). The tree ([`tree`]) can be
//! rendered as plain text, as JSON, or, piece by piece, as HTML
//! ([`render`]).
//!
//! Every function of the library is verified against its contract. What a
//! contract says of the parser is said over [`parsing::grammar`], which
//! gives, for every sequence of tokens, the elements and warnings that
//! parsing it yields.

pub mod bindings;
pub mod data;
pub mod error;
pub mod parsing;
pub mod preproc;
pub mod render;
pub mod settings;
pub mod std_specs;
pub mod text;
pub mod tree;
pub mod url;

pub use self::parsing::{parse, parse_wikitext, tokenize};
pub use self::preproc::substitute;
