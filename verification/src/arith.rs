//! Euclidean division helpers used throughout the crate.

use vstd::prelude::*;

verus! {

/// `a.rem_euclid(7)`.
pub fn rem_euclid_7(a: i64) -> (r: i64)
    ensures
        r == a % 7,
        0 <= r < 7,
{
    let r = a % 7;
    if r < 0 {
        r + 7
    } else {
        r
    }
}

/// `a.rem_euclid(12)`.
pub fn rem_euclid_12(a: i64) -> (r: i64)
    ensures
        r == a % 12,
        0 <= r < 12,
{
    let r = a % 12;
    if r < 0 {
        r + 12
    } else {
        r
    }
}

/// `a.div_euclid(7)`.
pub fn div_euclid_7(a: i64) -> (q: i64)
    ensures
        q == a / 7,
{
    let q = a / 7;
    if a % 7 < 0 {
        q - 1
    } else {
        q
    }
}

/// `a.div_euclid(12)`.
pub fn div_euclid_12(a: i64) -> (q: i64)
    ensures
        q == a / 12,
{
    let q = a / 12;
    if a % 12 < 0 {
        q - 1
    } else {
        q
    }
}

/// Euclidean (floor) division by 2.
pub fn div_euclid_2(a: i64) -> (q: i64)
    ensures
        q == a / 2,
{
    let q = a / 2;
    if a % 2 < 0 {
        q - 1
    } else {
        q
    }
}

} // verus!
