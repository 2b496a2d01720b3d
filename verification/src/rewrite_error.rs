//! What can go wrong inside the rewrite itself.

use vstd::prelude::*;

verus! {

/// The one fault the rewrite detects on its own: a translatable element
/// whose opening tag carries no `Key` attribute.  The document's contract
/// requires every translatable element to carry one, so this is malformed
/// input; the caller attaches the input position and stops.
#[derive(Clone, Copy, PartialEq, Eq, Structural, Debug)]
pub enum RewriteError {
    MissingKey,
}

impl RewriteError {
    /// A one-line description for diagnostics.
    pub fn describe(&self) -> (r: String)
        ensures
            r@ == "translatable element without a Key attribute"@,
    {
        "translatable element without a Key attribute".to_owned()
    }
}

} // verus!
