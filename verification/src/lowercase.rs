//! Case folding, delegated to the standard library.

use vstd::prelude::*;

verus! {

/// The Unicode lowercase mapping of a character sequence, as
/// `str::to_lowercase` computes it. Left without a definition: the
/// mapping depends on the input characters alone, and the scanners'
/// contracts only ever relate a scan of a lowered text to this name.
pub uninterp spec fn lower_of(s: Seq<char>) -> Seq<char>;

/// Relies on `str::to_lowercase` from std: the returned text is the
/// Unicode lowercase equivalent of the input and is determined by the
/// input characters alone.
#[verifier::external_body]
pub(crate) fn lowercase_chars(text: &Vec<char>) -> (r: Vec<char>)
    ensures
        r@ == lower_of(text@),
{
    let s: String = text.iter().collect();
    s.to_lowercase().chars().collect()
}

} // verus!
