//! The fixed list of candidate secret words and the choice of one.
use vstd::prelude::*;
use crate::random::random_in;

verus! {

/// How many words the list holds.
pub const WORD_COUNT: usize = 5;

/// The word at position `i` of the list.
pub open spec fn word_spec(i: int) -> Seq<char> {
    if i == 0 {
        "apple"@
    } else if i == 1 {
        "library"@
    } else if i == 2 {
        "potato"@
    } else if i == 3 {
        "abra-kadabra"@
    } else {
        "volcano"@
    }
}

/// The word at position `index` of the list.
pub fn word_at(index: usize) -> (w: &'static str)
    requires
        index < WORD_COUNT,
    ensures
        w@ == word_spec(index as int),
{
    if index == 0 {
        "apple"
    } else if index == 1 {
        "library"
    } else if index == 2 {
        "potato"
    } else if index == 3 {
        "abra-kadabra"
    } else {
        "volcano"
    }
}

/// Draws the secret word. The index is drawn from `1..=WORD_COUNT - 1`, so the
/// first word of the list is never chosen.
pub fn choose_secret() -> (w: &'static str)
    ensures
        exists|i: int| 1 <= i < WORD_COUNT && w@ == word_spec(i),
{
    let index = random_in(1, WORD_COUNT - 1);
    word_at(index)
}

} // verus!
