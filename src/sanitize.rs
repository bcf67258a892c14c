//! Markup stripping for user-supplied text.
use std::collections::HashSet;
use vstd::prelude::*;

verus! {

/// What ammonia makes of a text when no tag at all is allowed.
pub uninterp spec fn cleaned(s: Seq<char>) -> Seq<char>;

/// Removes every tag and attribute from `src`, keeping the plain text.
///
/// Relies on ammonia's `Builder::clean` with an empty tag set: no element is
/// kept, and the serializer escapes each `<` of the remaining text as `&lt;`,
/// so no markup is left in the result.
#[verifier::external_body]
pub fn clean_html(src: &str) -> (r: String)
    ensures
        r@ == cleaned(src@),
        !r@.contains('<'),
{
    ammonia::Builder::default().tags(HashSet::new()).clean(src).to_string()
}

} // verus!
