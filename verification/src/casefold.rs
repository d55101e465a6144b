//! Lowercasing of names and search terms.
//!
//! All comparisons in the engine are case-insensitive: directory-rule names
//! are stored lowercased, and file names and search terms are lowercased
//! before they are compared. The lowercase form of a string is named by the
//! uninterpreted function `lower_of`; the contracts of the engine speak of
//! names and patterns through that name.

use vstd::prelude::*;

verus! {

/// The lowercase form of a sequence of characters.
pub uninterp spec fn lower_of(s: Seq<char>) -> Seq<char>;

/// Relies on str::to_lowercase: the result depends on the characters of the
/// input alone.
#[verifier::external_body]
pub(crate) fn lowercase(s: &str) -> (r: String)
    ensures
        r@ == lower_of(s@),
{
    s.to_lowercase()
}

} // verus!
