use dog_detector::image_processing::{
    encode_bitmap, image_buffer_to_oled_byte_array, EncodingError, Frame,
};

fn solid_frame(width: u32, height: u32, value: u8) -> Frame {
    let data = vec![value; (3 * width * height) as usize];
    Frame::new(width, height, data).unwrap()
}

#[test]
fn frame_new_checks_dimensions() {
    assert!(Frame::new(2, 2, vec![0u8; 12]).is_ok());
    assert_eq!(
        Frame::new(2, 2, vec![0u8; 11]),
        Err(EncodingError::BadDimensions)
    );
    assert_eq!(
        Frame::new(2, 2, vec![0u8; 13]),
        Err(EncodingError::BadDimensions)
    );
}

#[test]
fn output_length_is_rows_times_row_bytes() {
    // 10 pixels wide: two bytes per row, the second padded
    let out = encode_bitmap(10, 2, &vec![0u8; 3 * 10 * 2], 128);
    assert_eq!(out.len(), 2 * 2);
    // 128 wide: exactly 16 bytes per row
    let out = encode_bitmap(128, 64, &vec![0u8; 3 * 128 * 64], 128);
    assert_eq!(out.len(), 64 * 16);
    // 1 pixel wide: one byte per row
    let out = encode_bitmap(1, 3, &vec![0u8; 3 * 3], 128);
    assert_eq!(out.len(), 3);
}

#[test]
fn all_dark_gives_zero_bytes() {
    let out = encode_bitmap(128, 64, &vec![0u8; 3 * 128 * 64], 0);
    assert!(out.iter().all(|&b| b == 0x00));
}

#[test]
fn all_bright_gives_full_bytes_with_padding() {
    // width a multiple of eight: every byte is 0xFF
    let out = encode_bitmap(16, 2, &vec![255u8; 3 * 16 * 2], 0);
    assert_eq!(out, vec![0xFF, 0xFF, 0xFF, 0xFF]);
    // width 10: each row is one full byte and one byte with the two
    // leading bits set and six zero padding bits
    let out = encode_bitmap(10, 2, &vec![255u8; 3 * 10 * 2], 0);
    assert_eq!(out, vec![0xFF, 0b1100_0000, 0xFF, 0b1100_0000]);
}

#[test]
fn bits_pack_most_significant_first() {
    // eight pixels, alternating bright and dark, in one row
    let mut data = Vec::new();
    for x in 0..8 {
        let v = if x % 2 == 0 { 255 } else { 0 };
        data.extend_from_slice(&[v, v, v]);
    }
    let out = encode_bitmap(8, 1, &data, 128);
    assert_eq!(out, vec![0b1010_1010]);
}

#[test]
fn luminance_is_averaged_and_compared_strictly() {
    // one pixel with average luminance (10 + 20 + 30) / 3 == 20
    let data = vec![10u8, 20, 30];
    assert_eq!(encode_bitmap(1, 1, &data, 19), vec![0b1000_0000]);
    assert_eq!(encode_bitmap(1, 1, &data, 20), vec![0b0000_0000]);
}

#[test]
fn rows_pack_independently() {
    // two rows of four pixels: first row bright, second dark
    let mut data = vec![255u8; 3 * 4];
    data.extend_from_slice(&[0u8; 3 * 4]);
    let out = encode_bitmap(4, 2, &data, 128);
    assert_eq!(out, vec![0b1111_0000, 0b0000_0000]);
}

#[test]
fn oled_array_resamples_to_fixed_size() {
    // a single bright pixel fills the whole 128x64 display
    let out = image_buffer_to_oled_byte_array(&solid_frame(1, 1, 255), 0);
    assert_eq!(out.len(), 64 * 16);
    assert!(out.iter().all(|&b| b == 0xFF));
    // a single dark pixel leaves it dark
    let out = image_buffer_to_oled_byte_array(&solid_frame(1, 1, 0), 0);
    assert_eq!(out.len(), 64 * 16);
    assert!(out.iter().all(|&b| b == 0x00));
}

#[test]
fn oled_array_from_native_size_frame() {
    // a frame already at the display size passes through unresampled
    let out = image_buffer_to_oled_byte_array(&solid_frame(128, 64, 255), 254);
    assert_eq!(out.len(), 1024);
    assert!(out.iter().all(|&b| b == 0xFF));
    let out = image_buffer_to_oled_byte_array(&solid_frame(128, 64, 100), 100);
    assert!(out.iter().all(|&b| b == 0x00));
}
