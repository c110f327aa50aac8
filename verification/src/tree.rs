//! The syntax tree that parsing produces and the renderers consume.

pub mod attribute;
pub mod clone;
pub mod container;
pub mod element;
pub mod laws;
pub mod link;
pub mod syntax_tree;
pub mod valid;

pub use self::attribute::AttributeMap;
pub use self::container::{ContainerType, ListType};
pub use self::element::{DefinitionListItem, Element, ListItem, PartialElement};
pub use self::link::{LinkLabel, LinkLocation};
pub use self::syntax_tree::SyntaxTree;
