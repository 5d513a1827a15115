use cobalt::image::{encode_bmp, Image};

#[test]
fn image_keeps_its_parts() {
    let image = Image::from_data(2, 1, 3, vec![1, 2, 3, 4, 5, 6].into_boxed_slice());
    assert_eq!(image.width, 2);
    assert_eq!(image.height, 1);
    assert_eq!(image.channels, 3);
    assert_eq!(&*image.data, &[1, 2, 3, 4, 5, 6]);
}

#[test]
fn bitmap_of_two_by_two_pixels() {
    // Rows from the top: red, green; blue, white.
    let pixels = [255, 0, 0, 0, 255, 0, 0, 0, 255, 255, 255, 255];
    let image = Image::from_data(2, 2, 3, pixels.to_vec().into_boxed_slice());
    let file = image.to_bmp().unwrap();
    let expected: Vec<u8> = vec![
        0x42, 0x4D, 70, 0, 0, 0, 0, 0, 0, 0, 54, 0, 0, 0, // file header
        40, 0, 0, 0, 2, 0, 0, 0, 2, 0, 0, 0, 1, 0, 24, 0, 0, 0, 0, 0, 16, 0, 0, 0, // info header
        0x13, 0x0B, 0, 0, 0x13, 0x0B, 0, 0, 0, 0, 0, 0, 0, 0, 0, 0, //
        255, 0, 0, 255, 255, 255, 0, 0, // bottom row: blue, white, padding
        0, 0, 255, 0, 255, 0, 0, 0, // top row: red, green, padding
    ];
    assert_eq!(file, expected);
}

#[test]
fn rows_are_filled_up_to_four_bytes() {
    for (width, padding) in [(1u32, 1usize), (2, 2), (3, 3), (4, 0), (5, 1)] {
        let pixels = vec![9u8; width as usize * 3 * 2];
        let file = encode_bmp(width, 2, &pixels).unwrap();
        let row = width as usize * 3 + padding;
        assert_eq!(file.len(), 54 + 2 * row);
        assert_eq!(&file[2..6], &((54 + 2 * row) as u32).to_le_bytes());
        assert_eq!(&file[34..38], &((2 * row) as u32).to_le_bytes());
        for r in 0..2 {
            let start = 54 + r * row;
            assert!(file[start..start + width as usize * 3].iter().all(|b| *b == 9));
            assert!(file[start + width as usize * 3..start + row].iter().all(|b| *b == 0));
        }
    }
}

#[test]
fn image_without_pixels_is_a_bare_header() {
    let file = encode_bmp(0, 0, &[]).unwrap();
    assert_eq!(file.len(), 54);
    assert_eq!(&file[0..2], b"BM");
    assert_eq!(&file[2..6], &54u32.to_le_bytes());
    let file = encode_bmp(7, 0, &[1, 2, 3]).unwrap();
    assert_eq!(file.len(), 54);
    assert_eq!(&file[18..22], &7u32.to_le_bytes());
}

#[test]
fn too_few_pixels_make_no_bitmap() {
    assert!(encode_bmp(2, 2, &[0; 11]).is_none());
    assert!(encode_bmp(2, 2, &[0; 12]).is_some());
    assert!(encode_bmp(2, 2, &[0; 13]).is_some());
    let short = Image::from_data(1, 1, 3, vec![1, 2].into_boxed_slice());
    assert!(short.to_bmp().is_none());
}

#[test]
fn sizes_beyond_the_header_fields_make_no_bitmap() {
    assert!(encode_bmp(u32::MAX, 0, &[]).is_none());
    // A row of 4294967292 bytes needs no padding; one pixel more makes 2^32.
    assert!(encode_bmp(1_431_655_764, 0, &[]).is_some());
    assert!(encode_bmp(1_431_655_765, 0, &[]).is_none());
    assert!(encode_bmp(65_536, 65_536, &[]).is_none());
    assert!(encode_bmp(1, u32::MAX, &[]).is_none());
}

#[test]
fn extra_channels_are_not_read() {
    // Only three bytes per pixel are read, whatever the image says of channels.
    let image = Image::from_data(1, 1, 4, vec![10, 20, 30, 40].into_boxed_slice());
    let file = image.to_bmp().unwrap();
    assert_eq!(&file[54..], &[30, 20, 10, 0]);
}
