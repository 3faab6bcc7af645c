//! Conversion from Confluence markup back to markdown.
use vstd::prelude::*;

verus! {

/// Converts a line of Confluence markup to markdown. No markup is recognised
/// in this direction yet, so every line converts to empty text.
pub fn to_markdown(input: &str) -> (r: String)
    ensures
        r@ == Seq::<char>::empty(),
{
    String::new()
}

} // verus!
