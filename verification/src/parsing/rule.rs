//! The rules of the parser.

pub mod block;
pub mod definition_list;
pub mod em_dash;
pub mod header;
pub mod list;
pub mod link_single;
