//! Portable search by a left-to-right scan.
use vstd::prelude::*;

use crate::first_match;
use crate::first_match_from;

verus! {

/// Returns the index of the first element of `haystack` equal to `needle`,
/// or `haystack.len()` when there is none.
pub fn find_in(needle: u8, haystack: &[u8]) -> (r: usize)
    ensures
        r as int == first_match(haystack@, needle),
{
    let mut i: usize = 0;
    while i < haystack.len() && haystack[i] != needle
        invariant
            0 <= i <= haystack@.len(),
            first_match_from(haystack@, needle, i as int) == first_match(haystack@, needle),
        decreases haystack@.len() - i,
    {
        i += 1;
    }
    i
}

/// Returns the index of the first element of `haystack` equal to `needle`,
/// or 4 when there is none.
pub fn find_in_4(needle: u8, haystack: &[u8; 4]) -> (r: usize)
    ensures
        r as int == first_match(haystack@, needle),
{
    find_in(needle, haystack.as_slice())
}

/// Returns the index of the first element of `haystack` equal to `needle`,
/// or 16 when there is none.
pub fn find_in_16(needle: u8, haystack: &[u8; 16]) -> (r: usize)
    ensures
        r as int == first_match(haystack@, needle),
{
    find_in(needle, haystack.as_slice())
}

/// Returns the index of the first element of `haystack` equal to `needle`,
/// or 32 when there is none.
pub fn find_in_32(needle: u8, haystack: &[u8; 32]) -> (r: usize)
    ensures
        r as int == first_match(haystack@, needle),
{
    find_in(needle, haystack.as_slice())
}

} // verus!
