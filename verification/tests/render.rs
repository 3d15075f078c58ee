use opc_desktop::render::blend::blend_pixel;
use opc_desktop::render::picture::{GradeOptions, Rgba};
use opc_desktop::render::still::{encode, StillError};

#[test]
fn a_pixel_reads_its_four_bytes_and_outside_is_none() {
    let picture = Rgba {
        width: 2,
        height: 2,
        pixels: (0u8..16).collect(),
    };
    assert_eq!(picture.pixel(0, 0), Some((0, 1, 2, 3)));
    assert_eq!(picture.pixel(1, 0), Some((4, 5, 6, 7)));
    assert_eq!(picture.pixel(0, 1), Some((8, 9, 10, 11)));
    assert_eq!(picture.pixel(1, 1), Some((12, 13, 14, 15)));
    assert_eq!(picture.pixel(2, 0), None);
    assert_eq!(picture.pixel(0, 2), None);
    let options = GradeOptions::default();
    assert!(!options.mirror && !options.upscale && !options.split && !options.split_vertical);
}

#[test]
fn a_transparent_colour_leaves_the_pixel_and_an_opaque_one_replaces_it() {
    assert_eq!(blend_pixel((1, 2, 3, 4), (9, 9, 9, 0)), (1, 2, 3, 4));
    assert_eq!(blend_pixel((1, 2, 3, 4), (10, 20, 30, 255)), (10, 20, 30, 255));
}

#[test]
fn half_alpha_chrome_blends_over_the_pixel() {
    // Over nothing, the colour is un-premultiplied and keeps its alpha.
    assert_eq!(blend_pixel((0, 0, 0, 0), (64, 0, 0, 128)), (127, 0, 0, 128));
    // Over opaque white, it mixes and the result is opaque.
    assert_eq!(blend_pixel((255, 255, 255, 255), (64, 0, 0, 128)), (190, 127, 127, 255));
    assert_eq!(blend_pixel((10, 20, 30, 100), (50, 60, 70, 100)), (83, 103, 122, 160));
}

#[test]
fn a_channel_brighter_than_its_alpha_wraps_over_nothing() {
    // Not a well-formed premultiplied colour: 200 * 255 / 100 is 510, kept to a byte.
    assert_eq!(blend_pixel((0, 0, 0, 0), (200, 0, 0, 100)), (254, 0, 0, 100));
}

#[test]
fn an_encoded_still_decodes_to_its_own_pixels() {
    let pixels: Vec<u8> = vec![255, 0, 0, 255, 0, 255, 0, 128, 0, 0, 255, 0, 16, 235, 128, 255, 1, 2, 3, 4, 9, 8, 7, 6];
    let image = Rgba { width: 3, height: 2, pixels: pixels.clone() };
    let encoded = encode(&image).expect("the picture should encode");
    assert!(encoded.starts_with(&[0x89, b'P', b'N', b'G', 13, 10, 26, 10]), "not a PNG");
    assert_ne!(encoded, pixels);

    let decoder = png::Decoder::new(std::io::Cursor::new(encoded.as_slice()));
    let mut reader = decoder.read_info().expect("the PNG should parse");
    let mut out = vec![0; reader.output_buffer_size().expect("a buffer size")];
    let info = reader.next_frame(&mut out).expect("the PNG should decode");
    assert_eq!((info.width, info.height), (3, 2));
    assert_eq!(info.color_type, png::ColorType::Rgba);
    assert_eq!(&out[..info.buffer_size()], pixels.as_slice());
}

#[test]
fn a_still_with_no_columns_or_rows_is_refused_by_name() {
    let wide = Rgba { width: 0, height: 2, pixels: Vec::new() };
    assert_eq!(encode(&wide), Err(StillError::ZeroWidth));
    let flat = Rgba { width: 2, height: 0, pixels: Vec::new() };
    assert_eq!(encode(&flat), Err(StillError::ZeroHeight));
}

#[test]
fn a_still_whose_buffer_is_short_names_both_lengths() {
    let short = Rgba { width: 2, height: 2, pixels: vec![0; 15] };
    assert_eq!(encode(&short), Err(StillError::BufferSize { expected: 16, actual: 15 }));
}

#[test]
fn bytes_past_the_last_row_are_never_read() {
    let picture = Rgba { width: 1, height: 1, pixels: vec![1, 2, 3, 4, 5, 6, 7, 8] };
    assert_eq!(picture.pixel(0, 0), Some((1, 2, 3, 4)));
    assert_eq!(picture.pixel(1, 0), None);
    assert_eq!(picture.pixel(0, 1), None);
}
