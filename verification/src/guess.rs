//! Comparing a guess with a secret number.

use vstd::prelude::*;

verus! {

/// The sign of `guess - secret`: `0` on a hit, `1` when the guess is too
/// high and `-1` when it is too low.
pub open spec fn guess_sign(guess: int, secret: int) -> int {
    if guess == secret {
        0
    } else if guess > secret {
        1
    } else {
        -1
    }
}

/// Tells how `guess` stands to `secret`.
pub fn check_guess(guess: i32, secret: i32) -> (r: i32)
    ensures
        r as int == guess_sign(guess as int, secret as int),
{
    if guess == secret {
        0
    } else if guess > secret {
        1
    } else {
        -1
    }
}

} // verus!
