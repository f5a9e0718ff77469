//! Small things that more than one part of the registry uses.

use vstd::prelude::*;

verus! {

/// `true`, whatever it is given.
pub fn always_true<T>(_value: T) -> (r: bool)
    ensures
        r,
{
    true
}

} // verus!
