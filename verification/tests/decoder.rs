use vzense_rust::error::ErrorKind;
use vzense_rust::frame::{check_pixel_count, get_depth_mm_u16_frame, get_normalized_depth};
use vzense_rust::util::{new_fixed_vec, normalize_u16_to_u8, normalize_value};

#[test]
fn decodes_little_endian_pixels() {
    let frame = vec![0x34, 0x12, 0xFF, 0xFF, 0x00, 0x00];
    let mut depth_mm = vec![0u16; 3];
    let r = get_depth_mm_u16_frame(&frame, 0, 65535, &mut depth_mm);
    assert_eq!(r, Ok(()));
    assert_eq!(depth_mm, vec![0x1234, 65535, 0]);
}

#[test]
fn decoded_depth_is_clamped_to_range() {
    // Raw values 50, 150, 250 against the range [100, 200].
    let frame = vec![50, 0, 150, 0, 250, 0];
    let mut depth_mm = vec![0u16; 3];
    let r = get_depth_mm_u16_frame(&frame, 100, 200, &mut depth_mm);
    assert_eq!(r, Ok(()));
    assert_eq!(depth_mm, vec![100, 150, 200]);
}

#[test]
fn short_buffer_is_rejected_by_decoder() {
    // Five bytes cannot hold three pixels.
    let frame = vec![1, 2, 3, 4, 5];
    let mut depth_mm = vec![77u16; 3];
    let r = get_depth_mm_u16_frame(&frame, 0, 1000, &mut depth_mm);
    assert_eq!(r, Err(ErrorKind::BufferTooShort));
    assert_eq!(depth_mm, vec![77, 77, 77]);
}

#[test]
fn extra_bytes_are_ignored_by_decoder() {
    let frame = vec![10, 0, 20, 0, 30, 0];
    let mut depth_mm = vec![0u16; 2];
    let r = get_depth_mm_u16_frame(&frame, 0, 1000, &mut depth_mm);
    assert_eq!(r, Ok(()));
    assert_eq!(depth_mm, vec![10, 20]);
}

#[test]
fn normalized_depth_maps_range_ends_to_byte_ends() {
    // min, max and midpoint of [500, 1500], little-endian.
    let frame = vec![0xF4, 0x01, 0xDC, 0x05, 0xE8, 0x03];
    let mut normalized = vec![0u8; 3];
    let r = get_normalized_depth(&frame, 500, 1500, &mut normalized);
    assert_eq!(r, Ok(()));
    assert_eq!(normalized, vec![0, 255, 127]);
}

#[test]
fn short_buffer_is_rejected_by_normalizer() {
    let frame = vec![1, 2, 3];
    let mut normalized = vec![42u8; 2];
    let r = get_normalized_depth(&frame, 0, 1000, &mut normalized);
    assert_eq!(r, Err(ErrorKind::BufferTooShort));
    assert_eq!(normalized, vec![42, 42]);
}

#[test]
fn normalize_value_exact_points() {
    assert_eq!(normalize_value(0, 0, 1000), 0);
    assert_eq!(normalize_value(1000, 0, 1000), 255);
    assert_eq!(normalize_value(500, 0, 1000), 127);
    // Values outside the range clamp to its ends first.
    assert_eq!(normalize_value(65535, 0, 1000), 255);
    assert_eq!(normalize_value(3, 10, 20), 0);
}

#[test]
fn normalize_is_monotone_across_the_range() {
    let mut previous = 0u8;
    for d in 500..=1500u16 {
        let b = normalize_value(d, 500, 1500);
        assert!(b >= previous);
        previous = b;
    }
    assert_eq!(previous, 255);
}

#[test]
fn normalize_slice_matches_per_value_results() {
    let input = vec![0u16, 250, 500, 750, 1000, 2000];
    let mut norm = vec![0u8; 6];
    normalize_u16_to_u8(&input, 0, 1000, &mut norm);
    assert_eq!(norm, vec![0, 63, 127, 191, 255, 255]);
}

#[test]
fn pixel_count_check_compares_the_product() {
    assert!(check_pixel_count(640, 480, 307_200));
    assert!(!check_pixel_count(640, 480, 307_201));
    assert!(check_pixel_count(0, 480, 0));
}

#[test]
fn fixed_vec_is_filled_with_the_initializer() {
    let v = new_fixed_vec(4, 7u32);
    assert_eq!(v, vec![7, 7, 7, 7]);
    let empty: Vec<u16> = new_fixed_vec(0, 3u16);
    assert!(empty.is_empty());
}
