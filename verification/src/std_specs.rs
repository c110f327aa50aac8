//! Contracts for functions of the standard library that vstd leaves
//! without one.
//!
//! Each function here makes one call into the standard library, and its
//! contract says what the documentation of the library says of that call.
//! The contracts are believed, not proved.

use crate::text::{byte_offset, covers, has_occurrence, is_first_occurrence, splice};
use std::sync::Arc;
use vstd::prelude::*;

verus! {

/// Appends one character to a string.
///
/// Calls `String::push`, which vstd does not specify; the contract states that
/// the string afterwards is the string before followed by `c`.
#[verifier::external_body]
pub(crate) fn push_char(s: &mut String, c: char)
    ensures
        final(s)@ == old(s)@.push(c),
{
    s.push(c);
}

/// Replaces the bytes `start..end` of `text` by `with`.
///
/// Calls `String::replace_range`, which panics unless both offsets lie on
/// character boundaries inside the string, in order.
#[verifier::external_body]
pub(crate) fn replace_range(text: &mut String, start: usize, end: usize, with: &str)
    requires
        exists|s: int, e: int| #[trigger] covers(old(text)@, start, end, s, e),
    ensures
        forall|s: int, e: int| #[trigger]
            covers(old(text)@, start, end, s, e) ==> final(text)@ == splice(old(text)@, s, e, with@),
{
    text.replace_range(start..end, with);
}

/// Finds the first occurrence of `needle` in `text`.
///
/// Calls `str::find` with a string pattern, which gives the byte offset of the
/// first occurrence, or `None` where there is none.
#[verifier::external_body]
pub(crate) fn find_str(text: &str, needle: &str) -> (r: Option<usize>)
    ensures
        match r {
            Some(start) => exists|s: int|
                is_first_occurrence(text@, needle@, s) && start == #[trigger] byte_offset(text@, s),
            None => !has_occurrence(text@, needle@),
        },
{
    text.find(needle)
}

/// A second pointer to a shared value.
///
/// Calls `Arc::clone`, which vstd does not specify; the clone points to the
/// same value.
#[verifier::external_body]
pub(crate) fn share<H>(handle: &Arc<H>) -> (r: Arc<H>)
    ensures
        r == *handle,
{
    Arc::clone(handle)
}

} // verus!
