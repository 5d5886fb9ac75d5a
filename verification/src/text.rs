//! Small helpers on strings.

use vstd::prelude::*;

verus! {

/// Tells whether `s` holds exactly the characters of `word`.
pub(crate) fn same_text(s: &String, word: &str) -> (same: bool)
    ensures
        same == (s@ == word@),
{
    let other = String::from_str(word);
    *s == other
}

/// A copy of `s`.
pub(crate) fn copy_text(s: &String) -> (copy: String)
    ensures
        copy@ == s@,
{
    s.clone()
}

} // verus!
