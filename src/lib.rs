//! Finds a byte in small fixed-size byte arrays.
//!
//! A portable linear scan and a lane-mask search (one match bit per byte,
//! reduced by counting trailing zeros) are both proved to locate the first
//! occurrence of the needle.
use vstd::prelude::*;

pub mod arch;
pub mod fallback;

verus! {

/// The first position at or after `i` where `h` holds `needle`, or `h.len()`
/// when there is none.
pub open spec fn first_match_from(h: Seq<u8>, needle: u8, i: int) -> int
    decreases h.len() - i,
{
    if i < 0 || i >= h.len() {
        h.len() as int
    } else if h[i] == needle {
        i
    } else {
        first_match_from(h, needle, i + 1)
    }
}

/// The index of the first byte of `h` equal to `needle`, or `h.len()` when
/// no byte is.
pub open spec fn first_match(h: Seq<u8>, needle: u8) -> int {
    first_match_from(h, needle, 0)
}

/// `first_match_from` is the least matching position at or after `i`.
pub proof fn lemma_first_match_from(h: Seq<u8>, needle: u8, i: int)
    requires
        0 <= i <= h.len(),
    ensures
        i <= first_match_from(h, needle, i) <= h.len(),
        forall|j: int| i <= j < first_match_from(h, needle, i) ==> h[j] != needle,
        first_match_from(h, needle, i) < h.len() ==> h[first_match_from(h, needle, i)] == needle,
    decreases h.len() - i,
{
    if i < h.len() && h[i] != needle {
        lemma_first_match_from(h, needle, i + 1);
    }
}

/// The result of searching for `needle` among the first `length` bytes of `h`:
/// the first match when it lies before `length`, `None` otherwise.
pub open spec fn find_within(h: Seq<u8>, needle: u8, length: int) -> Option<usize> {
    if first_match(h, needle) < h.len() && first_match(h, needle) < length {
        Some(first_match(h, needle) as usize)
    } else {
        None
    }
}

/// A raw index of a search of a `width`-byte haystack, bounded by `length`:
/// indices from `width` on mean "not found".
pub open spec fn bounded(raw: int, width: int, length: int) -> Option<usize> {
    if raw < width && raw < length {
        Some(raw as usize)
    } else {
        None
    }
}

/// Turns the raw index of a search of a `width`-byte haystack into a result
/// bounded by the logical length `length`.
pub fn within_length(raw: usize, width: usize, length: usize) -> (r: Option<usize>)
    ensures
        r == bounded(raw as int, width as int, length as int),
        raw >= width ==> r is None,
{
    if raw < width && raw < length {
        Some(raw)
    } else {
        None
    }
}

/// Every backend reports the raw index `first_match(h, needle)` (see
/// `arch::find_in_16_with` and `arch::find_in_32_with`), so all of them give the
/// same bounded result for every needle and every logical length: the first
/// match when it lies before the length, `None` otherwise. In particular the
/// "not found" index, the width itself, is bounded to `None` whatever the
/// length.
pub proof fn lemma_backends_agree(h: Seq<u8>, needle: u8, length: int)
    ensures
        bounded(first_match(h, needle), h.len() as int, length) == find_within(h, needle, length),
        first_match(h, needle) == h.len() ==> bounded(first_match(h, needle), h.len() as int, length) is None,
{
    lemma_first_match_from(h, needle, 0);
}

/// Where several bytes match, the one reported is the one with the lowest
/// index: it matches, and no match comes before it.
pub proof fn lemma_first_match_is_least(h: Seq<u8>, needle: u8, i: int)
    requires
        0 <= i < h.len(),
        h[i] == needle,
    ensures
        find_within(h, needle, h.len() as int) == Some(first_match(h, needle) as usize),
        first_match(h, needle) <= i,
        h[first_match(h, needle)] == needle,
        forall|j: int| 0 <= j < first_match(h, needle) ==> h[j] != needle,
{
    lemma_first_match_from(h, needle, 0);
}

/// A first match at index `i` is reported if and only if `i` lies before the
/// logical length; otherwise the search reports `None`, although the byte is
/// in the haystack.
pub proof fn lemma_length_clamp(h: Seq<u8>, needle: u8, length: int, i: int)
    requires
        0 <= i < h.len(),
        h[i] == needle,
        forall|j: int| 0 <= j < i ==> h[j] != needle,
    ensures
        find_within(h, needle, length) == Some(i as usize) <==> i < length,
        i >= length ==> find_within(h, needle, length) is None,
{
    lemma_first_match_from(h, needle, 0);
}

/// Fast search for a byte in a fixed-size byte array.
pub trait FastFind {
    /// The bytes searched.
    spec fn bytes(&self) -> Seq<u8>;

    /// Returns the index of the first element in the haystack that matches
    /// needle, or the haystack's length if not found.
    fn fast_find(&self, needle: u8) -> (r: usize)
        ensures
            r as int == first_match(self.bytes(), needle),
    ;

    /// Returns the index of the first element among the first `length` ones
    /// that matches needle, or `None` if there is none.
    fn fast_find_within(&self, needle: u8, length: usize) -> (r: Option<usize>)
        ensures
            r == find_within(self.bytes(), needle, length as int),
    ;
}

impl FastFind for [u8; 4] {
    open spec fn bytes(&self) -> Seq<u8> {
        self@
    }

    fn fast_find(&self, needle: u8) -> (r: usize) {
        arch::find_in_4(needle, self)
    }

    fn fast_find_within(&self, needle: u8, length: usize) -> (r: Option<usize>) {
        proof {
            lemma_first_match_from(self@, needle, 0);
        }
        within_length(arch::find_in_4(needle, self), 4, length)
    }
}

impl FastFind for [u8; 16] {
    open spec fn bytes(&self) -> Seq<u8> {
        self@
    }

    fn fast_find(&self, needle: u8) -> (r: usize) {
        arch::find_in_16(needle, self)
    }

    fn fast_find_within(&self, needle: u8, length: usize) -> (r: Option<usize>) {
        proof {
            lemma_first_match_from(self@, needle, 0);
        }
        within_length(arch::find_in_16(needle, self), 16, length)
    }
}

impl FastFind for [u8; 32] {
    open spec fn bytes(&self) -> Seq<u8> {
        self@
    }

    fn fast_find(&self, needle: u8) -> (r: usize) {
        arch::find_in_32(needle, self)
    }

    fn fast_find_within(&self, needle: u8, length: usize) -> (r: Option<usize>) {
        proof {
            lemma_first_match_from(self@, needle, 0);
        }
        within_length(arch::find_in_32(needle, self), 32, length)
    }
}

} // verus!
