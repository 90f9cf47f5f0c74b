//! Small arithmetic helpers exercised by guest programs.

use vstd::prelude::*;

verus! {

pub fn multiply(a: i32, b: i32) -> (r: i32)
    requires
        i32::MIN <= a as int * b as int <= i32::MAX,
    ensures
        r as int == a as int * b as int,
{
    a * b
}

pub fn add(a: i32, b: i32) -> (r: i32)
    requires
        i32::MIN <= a as int + b as int <= i32::MAX,
    ensures
        r as int == a as int + b as int,
{
    a + b
}

pub fn add_two(a: i32) -> (r: i32)
    requires
        a as int + 2 <= i32::MAX,
    ensures
        r as int == a as int + 2,
{
    a + 2
}

} // verus!
