use fast_find::arch::eq_mask_16;
use fast_find::arch::eq_mask_32;
use fast_find::arch::eq_mask_32_pair;
use fast_find::arch::find_in_16;
use fast_find::arch::find_in_16_with;
use fast_find::arch::find_in_32;
use fast_find::arch::find_in_32_with;
use fast_find::arch::find_in_4;
use fast_find::arch::first_lane;
use fast_find::arch::join_halves;
use fast_find::arch::lowest_set;
use fast_find::arch::select_backend;
use fast_find::arch::Backend;
use fast_find::within_length;

#[test]
fn test_avx_find_16() {
    fn test_all(needle: u8, haystack: &[u8; 16], expected: usize) {
        assert_eq!(first_lane(eq_mask_16(needle, haystack, 0), 16), expected);
        assert_eq!(find_in_16(needle, haystack), expected);
    }

    let mut array = [0; 16];

    test_all(4, &array, 16);
    assert_eq!(lowest_set(eq_mask_16(4, &array, 0)), 32);

    array[4] = 4;
    array[6] = 10;

    test_all(4, &array, 4);
    test_all(5, &array, 16);
    assert_eq!(lowest_set(eq_mask_16(5, &array, 0)), 32);
    test_all(10, &array, 6);
}

#[test]
fn test_avx_find_32() {
    fn test_all(needle: u8, haystack: &[u8; 32], expected: usize) {
        assert_eq!(lowest_set(eq_mask_32(needle, haystack)), expected);
        assert_eq!(lowest_set(eq_mask_32_pair(needle, haystack)), expected);
        assert_eq!(find_in_32(needle, haystack), expected);
    }

    let mut array = [0; 32];

    test_all(4, &array, 32);

    array[4] = 4;
    array[6] = 10;
    array[20] = 5;

    test_all(4, &array, 4);
    test_all(5, &array, 20);
    test_all(10, &array, 6);
}

#[test]
fn masks_have_one_bit_per_matching_byte() {
    let mut array = [0u8; 32];
    array[0] = 1;
    array[5] = 1;
    array[16] = 1;
    array[31] = 1;
    let expected: u32 = (1 << 0) | (1 << 5) | (1 << 16) | (1 << 31);
    assert_eq!(eq_mask_32(1, &array), expected);
    assert_eq!(eq_mask_32_pair(1, &array), expected);
    assert_eq!(eq_mask_16(1, &array, 0), (1 << 0) | (1 << 5));
    assert_eq!(eq_mask_16(1, &array, 16), (1 << 0) | (1 << 15));
    assert_eq!(eq_mask_32(0, &array), !expected);
}

#[test]
fn lowest_set_bit() {
    assert_eq!(lowest_set(0), 32);
    assert_eq!(lowest_set(1), 0);
    assert_eq!(lowest_set(0b1011_0000), 4);
    assert_eq!(lowest_set(1 << 31), 31);
    assert_eq!(lowest_set(u32::MAX), 0);
}

#[test]
fn backend_selection_prefers_widest() {
    assert_eq!(select_backend(true, true), Backend::Lanes32);
    assert_eq!(select_backend(true, false), Backend::Lanes32);
    assert_eq!(select_backend(false, true), Backend::Lanes16);
    assert_eq!(select_backend(false, false), Backend::Scalar);
}

#[test]
fn backends_agree_on_bounded_results() {
    let mut a16 = [0u8; 16];
    a16[4] = 4;
    a16[6] = 10;
    let mut a32 = [0u8; 32];
    a32[4] = 4;
    a32[6] = 10;
    a32[20] = 5;
    let backends = [Backend::Scalar, Backend::Lanes16, Backend::Lanes32];
    for needle in [0u8, 4, 5, 10, 255] {
        for length in [0usize, 5, 7, 16, 21, 32, 40] {
            let r16 = within_length(find_in_16_with(Backend::Scalar, needle, &a16), 16, length);
            let r32 = within_length(find_in_32_with(Backend::Scalar, needle, &a32), 32, length);
            for b in backends {
                assert_eq!(within_length(find_in_16_with(b, needle, &a16), 16, length), r16);
                assert_eq!(within_length(find_in_32_with(b, needle, &a32), 32, length), r32);
            }
        }
    }
}

#[test]
fn raw_results_per_backend() {
    let a16 = [0u8; 16];
    assert_eq!(find_in_16_with(Backend::Scalar, 3, &a16), 16);
    assert_eq!(find_in_16_with(Backend::Lanes16, 3, &a16), 16);
    assert_eq!(find_in_16_with(Backend::Lanes32, 3, &a16), 16);
    let mut a32 = [0u8; 32];
    assert_eq!(find_in_32_with(Backend::Scalar, 3, &a32), 32);
    a32[16] = 3;
    assert_eq!(find_in_32_with(Backend::Scalar, 3, &a32), 16);
    assert_eq!(find_in_32_with(Backend::Lanes16, 3, &a32), 16);
    assert_eq!(find_in_32_with(Backend::Lanes32, 3, &a32), 16);
    assert_eq!(find_in_4(3, &[3, 3, 3, 3]), 0);
}

#[test]
fn sentinel_is_never_an_index() {
    assert_eq!(within_length(16, 16, 16), None);
    assert_eq!(within_length(16, 16, 100), None);
    assert_eq!(within_length(32, 16, 100), None);
    assert_eq!(within_length(32, 32, usize::MAX), None);
    assert_eq!(within_length(15, 16, 16), Some(15));
    assert_eq!(within_length(15, 16, 15), None);
}

#[test]
fn first_lane_stops_at_width() {
    assert_eq!(first_lane(0, 16), 16);
    assert_eq!(first_lane(0, 32), 32);
    assert_eq!(first_lane(1 << 16, 16), 16);
    assert_eq!(first_lane(1 << 16, 32), 16);
    assert_eq!(first_lane(0b1000, 16), 3);
    assert_eq!(first_lane(0b1000, 3), 3);
    assert_eq!(first_lane(0b1000, 4), 3);
    assert_eq!(first_lane(u32::MAX, 0), 0);
}

#[test]
fn join_halves_places_high_mask_above_low() {
    assert_eq!(join_halves(0b101, 0b11), 0b101 | (0b11 << 16));
    assert_eq!(join_halves(0xffff_0001, 0), 1);
    assert_eq!(join_halves(0, 0x8000), 1 << 31);
    assert_eq!(join_halves(0, 0xffff_ffff), 0xffff_0000);
}

#[test]
fn sixteen_byte_backends_agree_raw() {
    let mut a16 = [7u8; 16];
    for b in [Backend::Scalar, Backend::Lanes16, Backend::Lanes32] {
        assert_eq!(find_in_16_with(b, 1, &a16), 16);
        assert_eq!(find_in_16_with(b, 7, &a16), 0);
    }
    a16[0] = 0;
    a16[15] = 1;
    for b in [Backend::Scalar, Backend::Lanes16, Backend::Lanes32] {
        assert_eq!(find_in_16_with(b, 1, &a16), 15);
        assert_eq!(find_in_16_with(b, 2, &a16), 16);
    }
}
