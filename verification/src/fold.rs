//! Case folding for the case-insensitive comparison.

use vstd::prelude::*;

verus! {

/// The lower-case form that the standard library gives a text. It depends on
/// the text alone.
pub uninterp spec fn lowercase_of(text: Seq<char>) -> Seq<char>;

/// The form in which a text is compared when case is to be ignored: the empty
/// text as it is, any other text in lower case.
pub open spec fn lowercased(text: Seq<char>) -> Seq<char> {
    if text.len() == 0 {
        text
    } else {
        lowercase_of(text)
    }
}

/// Calls `str::to_lowercase`, which returns the lower-case equivalent of the
/// slice as a new string. The contract gives that result its name and claims
/// nothing else of it.
#[verifier::external_body]
fn to_lowercase(text: &str) -> (lower: String)
    ensures
        lower@ == lowercase_of(text@),
{
    text.to_lowercase()
}

/// Folds a text for the case-insensitive comparison.
pub fn fold_case(text: &str) -> (folded: String)
    ensures
        folded@ == lowercased(text@),
{
    if text.is_empty() {
        String::new()
    } else {
        to_lowercase(text)
    }
}

} // verus!
