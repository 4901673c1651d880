//! Optional texts: names of namespaces, selectors.

use vstd::prelude::*;

verus! {

/// What an optional text holds.
pub open spec fn text_view(text: Option<String>) -> Option<Seq<char>> {
    match text {
        Some(text) => Some(text@),
        None => None,
    }
}

/// What an optional string slice holds.
pub open spec fn str_view(text: Option<&str>) -> Option<Seq<char>> {
    match text {
        Some(text) => Some(text@),
        None => None,
    }
}

/// A copy of an optional text.
pub(crate) fn copy_text(text: &Option<String>) -> (copy: Option<String>)
    ensures
        copy == *text,
{
    match text {
        Some(text) => Some(text.clone()),
        None => None,
    }
}

/// An optional string slice as a text of its own.
pub(crate) fn owned_text(text: Option<&str>) -> (owned: Option<String>)
    ensures
        text_view(owned) == str_view(text),
{
    match text {
        Some(text) => Some(String::from_str(text)),
        None => None,
    }
}

/// Whether two optional texts hold the same.
pub(crate) fn same_text(a: &Option<String>, b: &Option<String>) -> (same: bool)
    ensures
        same == (text_view(*a) == text_view(*b)),
{
    match (a, b) {
        (Some(a), Some(b)) => *a == *b,
        (None, None) => true,
        _ => false,
    }
}

} // verus!
