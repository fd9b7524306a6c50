//! Comparing texts.

use vstd::prelude::*;

verus! {

/// Whether `s` is, character by character, the text `lit`.
pub fn is_literal(s: &String, lit: &str) -> (r: bool)
    ensures
        r == (s@ == lit@),
{
    let other = lit.to_owned();
    *s == other
}

} // verus!
