//! Glyph codes from rltk's code-page-437 table.

use vstd::prelude::*;

verus! {

/// The code-page-437 code that rltk's `to_cp437` gives a character.
pub uninterp spec fn cp437(c: char) -> u16;

/// Calls `rltk::to_cp437`, a fixed table from characters to code-page-437 codes.
/// Claimed: the result depends on the character alone, and for the four characters the
/// game draws it is 64 for '@', 103 for 'g', 111 for 'o' and 173 for '¡' (their entries
/// in the table); the rest of the table is not restated.
#[verifier::external_body]
pub fn to_cp437(c: char) -> (code: u16)
    ensures
        code == cp437(c),
        c == '@' ==> code == 64,
        c == 'g' ==> code == 103,
        c == 'o' ==> code == 111,
        c == '¡' ==> code == 173,
{
    rltk::to_cp437(c)
}

} // verus!
