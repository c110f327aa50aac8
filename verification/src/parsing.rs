//! The tokenizer and the rule-driven parser.

pub mod collect;
pub mod consume;
pub mod depth;
pub mod grammar;
pub mod page;
pub mod paragraph;
pub mod parser;
pub mod result;
pub mod toc;
pub mod rule;
pub mod token;
pub mod tokenize;

pub use self::page::{parse, parse_wikitext};
pub use self::result::{ParseWarning, ParseWarningKind};
pub use self::token::{ExtractedToken, Token};
pub use self::tokenize::{tokenize, Tokenization};
