//! Letter case as Unicode defines it, from the standard library.

use vstd::prelude::*;

use crate::text::ascii_lower;

verus! {

/// The Unicode lower-case form of a text.
pub uninterp spec fn lowercase_of(s: Seq<char>) -> Seq<char>;

/// `str::to_lowercase`: the lower-case form of the text. Text without a character beyond
/// ASCII has only its letters `A` to `Z` changed.
#[verifier::external_body]
pub(crate) fn to_lowercase(s: &str) -> (r: String)
    ensures
        r@ == lowercase_of(s@),
        vstd::utf8::is_ascii_chars(s@) ==> r@ == ascii_lower(s@),
{
    s.to_lowercase()
}

} // verus!
