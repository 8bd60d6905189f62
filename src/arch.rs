//! Search through lane masks: each byte of the haystack is compared with the
//! needle, the results are packed into a bit mask (bit `j` for byte `j`), and
//! the lowest set bit of the mask gives the first match.
use vstd::prelude::*;
use vstd::std_specs::bits::axiom_u32_trailing_zeros;

use crate::fallback;
use crate::first_match;
use crate::lemma_first_match_from;

pub use crate::fallback::find_in_4;

verus! {

/// Whether bit `j` of `m` is set.
pub open spec fn bit_set(m: u32, j: u32) -> bool {
    (m >> j) & 1u32 == 1u32
}

/// `m` is the lane mask of `h` for `needle`: of its 32 bits exactly those
/// that stand for a byte of `h` equal to `needle` are set.
pub open spec fn is_lane_mask(m: u32, h: Seq<u8>, needle: u8) -> bool {
    forall|j: u32| j < 32 ==> (#[trigger] bit_set(m, j) <==> (j < h.len() && h[j as int] == needle))
}

proof fn lemma_empty_mask()
    ensures
        forall|j: u32| j < 32 ==> !#[trigger] bit_set(0u32, j),
{
    assert forall|j: u32| j < 32 implies !#[trigger] bit_set(0u32, j) by {
        assert((0u32 >> j) & 1u32 == 0u32) by (bit_vector);
    }
}

proof fn lemma_add_bit(m: u32, i: u32)
    requires
        i < 32,
    ensures
        forall|j: u32| j < 32 ==> (#[trigger] bit_set(m | (1u32 << i), j) <==> (bit_set(m, j) || j == i)),
{
    assert forall|j: u32| j < 32 implies (#[trigger] bit_set(m | (1u32 << i), j) <==> (bit_set(m, j) || j == i)) by {
        assert((((m | (1u32 << i)) >> j) & 1u32 == 1u32) <==> ((m >> j) & 1u32 == 1u32 || j == i))
            by (bit_vector)
            requires
                i < 32,
                j < 32,
        ;
    }
}

proof fn lemma_join_halves(lo: u32, hi: u32)
    requires
        forall|j: u32| 16 <= j < 32 ==> !#[trigger] bit_set(lo, j),
    ensures
        forall|j: u32| j < 16 ==> (#[trigger] bit_set(lo | (hi << 16u32), j) <==> bit_set(lo, j)),
        forall|j: u32|
            16 <= j < 32 ==> (#[trigger] bit_set(lo | (hi << 16u32), j) <==> bit_set(hi, (j - 16) as u32)),
{
    assert forall|j: u32| j < 16 implies (#[trigger] bit_set(lo | (hi << 16u32), j) <==> bit_set(lo, j)) by {
        assert((((lo | (hi << 16u32)) >> j) & 1u32 == 1u32) <==> ((lo >> j) & 1u32 == 1u32))
            by (bit_vector)
            requires
                j < 16,
        ;
    }
    assert forall|j: u32| 16 <= j < 32 implies (#[trigger] bit_set(lo | (hi << 16u32), j) <==> bit_set(hi, (j - 16) as u32)) by {
        assert(!bit_set(lo, j));
        assert((((lo | (hi << 16u32)) >> j) & 1u32 == 1u32) <==> ((hi >> ((j - 16) as u32)) & 1u32 == 1u32))
            by (bit_vector)
            requires
                16 <= j < 32,
                (lo >> j) & 1u32 != 1u32,
        ;
    }
}

/// The mask of `lanes` bytes of `haystack` starting at `start`.
fn lane_mask(needle: u8, haystack: &[u8], start: usize, lanes: usize) -> (m: u32)
    requires
        lanes <= 32,
        start + lanes <= haystack@.len(),
    ensures
        is_lane_mask(m, haystack@.subrange(start as int, start + lanes), needle),
{
    let ghost lane = haystack@.subrange(start as int, start + lanes);
    let mut m: u32 = 0;
    let mut i: usize = 0;
    proof {
        lemma_empty_mask();
        assert(haystack@.len() == haystack.len());
    }
    while i < lanes
        invariant
            i <= lanes <= 32,
            start + lanes <= haystack@.len() <= usize::MAX,
            lane == haystack@.subrange(start as int, start + lanes),
            forall|j: u32| j < 32 ==> (#[trigger] bit_set(m, j) <==> (j < i && lane[j as int] == needle)),
        decreases lanes - i,
    {
        if haystack[start + i] == needle {
            proof {
                lemma_add_bit(m, i as u32);
            }
            m = m | (1u32 << (i as u32));
        }
        i += 1;
    }
    m
}

/// Returns the index of the lowest set bit of `mask`, or 32 when no bit is set.
pub fn lowest_set(mask: u32) -> (r: usize)
    ensures
        r <= 32,
        forall|j: u32| j < r ==> !#[trigger] bit_set(mask, j),
        r < 32 ==> bit_set(mask, r as u32),
        r == 32 <==> mask == 0,
{
    proof {
        axiom_u32_trailing_zeros(mask);
    }
    mask.trailing_zeros() as usize
}

/// Reduces the mask of a `width`-byte haystack to the index of its lowest set
/// bit among the first `width`, or to `width` itself when none of them is set.
pub fn first_lane(mask: u32, width: usize) -> (r: usize)
    requires
        width <= 32,
    ensures
        r <= width,
        forall|j: u32| j < r ==> !#[trigger] bit_set(mask, j),
        r < width ==> bit_set(mask, r as u32),
{
    let t = lowest_set(mask);
    if t < width {
        t
    } else {
        width
    }
}

/// The lane mask of a haystack whose low half has mask `lo` and whose high
/// half has mask `hi`: bits 0 to 15 come from `lo`, bits 16 to 31 from the low
/// 16 bits of `hi`.
pub fn join_halves(lo: u32, hi: u32) -> (m: u32)
    ensures
        forall|j: u32| j < 16 ==> (#[trigger] bit_set(m, j) <==> bit_set(lo, j)),
        forall|j: u32| 16 <= j < 32 ==> (#[trigger] bit_set(m, j) <==> bit_set(hi, (j - 16) as u32)),
{
    let low = lo & 0xffffu32;
    proof {
        assert forall|j: u32| 16 <= j < 32 implies !#[trigger] bit_set(low, j) by {
            assert(((lo & 0xffffu32) >> j) & 1u32 != 1u32) by (bit_vector)
                requires
                    16 <= j < 32,
            ;
        }
        assert forall|j: u32| j < 16 implies (#[trigger] bit_set(low, j) <==> bit_set(lo, j)) by {
            assert((((lo & 0xffffu32) >> j) & 1u32 == 1u32) <==> ((lo >> j) & 1u32 == 1u32))
                by (bit_vector)
                requires
                    j < 16,
            ;
        }
        lemma_join_halves(low, hi);
    }
    low | (hi << 16u32)
}

/// The reduced lane mask of a haystack is its first match.
proof fn lemma_first_lane_is_first(m: u32, h: Seq<u8>, needle: u8, r: int)
    requires
        h.len() <= 32,
        is_lane_mask(m, h, needle),
        0 <= r <= h.len(),
        forall|j: u32| j < r ==> !#[trigger] bit_set(m, j),
        r < h.len() ==> bit_set(m, r as u32),
    ensures
        r == first_match(h, needle),
{
    let f = first_match(h, needle);
    lemma_first_match_from(h, needle, 0);
    if f < h.len() {
        assert(bit_set(m, f as u32));
    }
    if r < h.len() {
        assert(bit_set(m, r as u32));
    }
}

/// The 16-lane comparison: the lane mask of the 16 bytes of `haystack` that
/// start at `start`.
pub fn eq_mask_16(needle: u8, haystack: &[u8], start: usize) -> (m: u32)
    requires
        start + 16 <= haystack@.len(),
    ensures
        is_lane_mask(m, haystack@.subrange(start as int, start + 16), needle),
{
    lane_mask(needle, haystack, start, 16)
}

/// The 32-lane comparison of a whole 32-byte haystack in one pass.
pub fn eq_mask_32(needle: u8, haystack: &[u8; 32]) -> (m: u32)
    ensures
        is_lane_mask(m, haystack@, needle),
{
    let s = haystack.as_slice();
    assert(s@.subrange(0, 32) =~= haystack@);
    lane_mask(needle, s, 0, 32)
}

/// The 32-lane comparison built from two 16-lane ones: bytes 0 to 15 give the
/// low half of the mask, bytes 16 to 31 the high half.
pub fn eq_mask_32_pair(needle: u8, haystack: &[u8; 32]) -> (m: u32)
    ensures
        is_lane_mask(m, haystack@, needle),
{
    let s = haystack.as_slice();
    let lo = eq_mask_16(needle, s, 0);
    let hi = eq_mask_16(needle, s, 16);
    let m = join_halves(lo, hi);
    proof {
        let h = haystack@;
        let l = s@.subrange(0, 16);
        let u = s@.subrange(16, 32);
        assert forall|j: u32| j < 32 implies (#[trigger] bit_set(m, j) <==> (j < h.len() && h[j as int] == needle)) by {
            if j < 16 {
                assert(bit_set(m, j) == bit_set(lo, j));
                assert(l[j as int] == h[j as int]);
            } else {
                let k = (j - 16) as u32;
                assert(bit_set(m, j) == bit_set(hi, k));
                assert(u[k as int] == h[j as int]);
            }
        }
    }
    m
}

/// The ways a haystack can be searched, from the most portable to the widest
/// comparison.
#[derive(Clone, Copy, Debug, PartialEq, Eq, Structural)]
pub enum Backend {
    /// A left-to-right scan, available everywhere.
    Scalar,
    /// Comparisons of 16 bytes at a time.
    Lanes16,
    /// Comparisons of 32 bytes at a time.
    Lanes32,
}

/// Picks the widest comparison that the processor offers, given whether it
/// offers 32-byte and 16-byte comparisons; the scan when it offers neither.
pub fn select_backend(has_lanes32: bool, has_lanes16: bool) -> (b: Backend)
    ensures
        has_lanes32 ==> b == Backend::Lanes32,
        !has_lanes32 && has_lanes16 ==> b == Backend::Lanes16,
        !has_lanes32 && !has_lanes16 ==> b == Backend::Scalar,
{
    if has_lanes32 {
        Backend::Lanes32
    } else if has_lanes16 {
        Backend::Lanes16
    } else {
        Backend::Scalar
    }
}

/// Searches a 16-byte haystack with backend `b`: the first match, or 16 when
/// there is none, whichever backend runs. A 16-byte haystack fills one
/// 16-byte comparison, so the 32-byte backend searches it that way too.
pub fn find_in_16_with(b: Backend, needle: u8, haystack: &[u8; 16]) -> (r: usize)
    ensures
        r as int == first_match(haystack@, needle),
{
    match b {
        Backend::Scalar => fallback::find_in_16(needle, haystack),
        _ => {
            let s = haystack.as_slice();
            let m = eq_mask_16(needle, s, 0);
            let r = first_lane(m, 16);
            proof {
                assert(s@.subrange(0, 16) =~= haystack@);
                lemma_first_lane_is_first(m, haystack@, needle, r as int);
            }
            r
        },
    }
}

/// Searches a 32-byte haystack with backend `b`: the first match, or 32 when
/// there is none, whichever backend runs. The 16-byte backend joins two
/// 16-byte comparisons, the 32-byte backend makes one.
pub fn find_in_32_with(b: Backend, needle: u8, haystack: &[u8; 32]) -> (r: usize)
    ensures
        r as int == first_match(haystack@, needle),
{
    let m = match b {
        Backend::Scalar => {
            return fallback::find_in_32(needle, haystack);
        },
        Backend::Lanes16 => eq_mask_32_pair(needle, haystack),
        Backend::Lanes32 => eq_mask_32(needle, haystack),
    };
    let r = first_lane(m, 32);
    proof {
        lemma_first_lane_is_first(m, haystack@, needle, r as int);
    }
    r
}

/// Returns the index of the first element of `haystack` equal to `needle`
/// through a 16-lane mask, or 16 when there is none.
pub fn find_in_16(needle: u8, haystack: &[u8; 16]) -> (r: usize)
    ensures
        r as int == first_match(haystack@, needle),
{
    find_in_16_with(Backend::Lanes16, needle, haystack)
}

/// Returns the index of the first element of `haystack` equal to `needle`
/// through a 32-lane mask, or 32 when there is none.
pub fn find_in_32(needle: u8, haystack: &[u8; 32]) -> (r: usize)
    ensures
        r as int == first_match(haystack@, needle),
{
    find_in_32_with(Backend::Lanes32, needle, haystack)
}

} // verus!
