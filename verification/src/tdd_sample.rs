//! A first, tiny verified function.

use vstd::prelude::*;

verus! {

/// Adds two integers and returns their sum.
///
/// The sum has to be representable: a caller shows that `a + b` lies within
/// the range of `i32`.
pub fn add_two(a: i32, b: i32) -> (sum: i32)
    requires
        i32::MIN <= a + b <= i32::MAX,
    ensures
        sum == a + b,
{
    a + b
}

} // verus!
