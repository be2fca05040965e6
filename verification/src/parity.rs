//! Parity of machine integers.

use vstd::prelude::*;

verus! {

/// Whether `n` is a multiple of two.
pub fn is_even(n: i32) -> (r: bool)
    ensures
        r == (n as int % 2 == 0),
{
    n % 2 == 0
}

} // verus!
