//! Words of flags, one bit for each button.

use vstd::prelude::*;

verus! {

/// The word with `flag` set where `pressed`.
pub open spec fn with_flag(word: u16, pressed: bool, flag: u16) -> u16 {
    if pressed {
        word | flag
    } else {
        word
    }
}

/// The word with `flag` set where `pressed`.
pub fn set_flag(word: u16, pressed: bool, flag: u16) -> (r: u16)
    ensures
        r == with_flag(word, pressed, flag),
{
    if pressed {
        word | flag
    } else {
        word
    }
}

} // verus!
