//! Small verified helpers over vectors and strings.

use vstd::prelude::*;

verus! {

/// Whether `v` holds `x`.
pub fn contains_usize(v: &Vec<usize>, x: usize) -> (b: bool)
    ensures
        b == v@.contains(x),
{
    let mut i: usize = 0;
    while i < v.len()
        invariant
            i <= v.len(),
            forall|j: int| 0 <= j < i ==> v@[j] != x,
        decreases v.len() - i,
    {
        if v[i] == x {
            return true;
        }
        i += 1;
    }
    false
}

/// `a + b` held inside the range of `i32`.
pub fn sat_add(a: i32, b: i32) -> (r: i32)
    ensures
        r == (if a + b > i32::MAX {
            i32::MAX as int
        } else if a + b < i32::MIN {
            i32::MIN as int
        } else {
            a + b
        }),
{
    let s = a as i64 + b as i64;
    if s > i32::MAX as i64 {
        i32::MAX
    } else if s < i32::MIN as i64 {
        i32::MIN
    } else {
        s as i32
    }
}

} // verus!
