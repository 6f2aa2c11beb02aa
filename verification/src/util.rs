//! Small rules for reading the catalog's records.

use vstd::prelude::*;

verus! {

/// The title of a chapter as the catalog gives it: the catalog may give
/// none, and that reads as the empty title.
pub fn title_or_empty(title: Option<String>) -> (r: String)
    ensures
        r@ == match title {
            Some(t) => t@,
            None => Seq::<char>::empty(),
        },
{
    match title {
        Some(t) => t,
        None => String::new(),
    }
}

} // verus!
