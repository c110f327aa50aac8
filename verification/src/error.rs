//! The error type shared by the renderers and the host interface.

use vstd::prelude::*;

verus! {

/// What can go wrong outside of parsing.
#[derive(Debug, Clone, PartialEq, Eq)]
pub enum RenderError {
    /// A fixed description.
    StaticMsg(&'static str),
    /// A description built at run time.
    Msg(String),
}

} // verus!
