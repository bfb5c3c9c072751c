use cbr_egui::decode::pipeline::{cancellation_outcome, decode_bytes, exceeds_texture, target_bounds};
use cbr_egui::decode::{CancellationToken, DecodeError, Rotation, WorkerError};
use image::{ImageBuffer, ImageFormat, Rgba};

fn png_bytes(width: u32, height: u32) -> Vec<u8> {
    let image = ImageBuffer::from_pixel(width, height, Rgba([255_u8, 0, 0, 255]));
    let mut cursor = std::io::Cursor::new(Vec::new());
    image
        .write_to(&mut cursor, ImageFormat::Png)
        .expect("encode png");
    cursor.into_inner()
}

#[test]
fn decodes_valid_image_bytes_to_color_image() {
    let image = decode_bytes(&png_bytes(2, 3), None, Rotation::Upright, None).expect("decode succeeds");

    assert_eq!([image.width, image.height], [2, 3]);
    assert_eq!(image.rgba.len(), 2 * 3 * 4);
    assert_eq!(&image.rgba[0..4], &[255, 0, 0, 255]);
}

#[test]
fn corrupt_image_bytes_return_recoverable_error() {
    let outcome = decode_bytes(b"not an image", None, Rotation::Upright, None);

    assert!(matches!(outcome, Err(DecodeError::Image(_))));
}

#[test]
fn empty_bytes_are_refused_before_decoding() {
    assert_eq!(
        decode_bytes(&[], None, Rotation::Upright, None),
        Err(DecodeError::EmptyBytes)
    );
}

#[test]
fn target_size_downsamples_before_color_image_conversion() {
    let image = decode_bytes(&png_bytes(40, 20), Some([10, 10]), Rotation::Upright, None)
        .expect("decode succeeds");

    assert_eq!([image.width, image.height], [10, 5]);
}

#[test]
fn zero_target_side_leaves_the_page_at_full_size() {
    let image = decode_bytes(&png_bytes(40, 20), Some([0, 10]), Rotation::Upright, None)
        .expect("decode succeeds");

    assert_eq!([image.width, image.height], [40, 20]);
}

#[test]
fn cancelled_decode_request_returns_recoverable_error() {
    let token = CancellationToken::new();
    token.cancel();

    let outcome = decode_bytes(&png_bytes(1, 1), None, Rotation::Upright, Some(&token));

    assert!(
        matches!(outcome, Err(DecodeError::Image(message)) if message.contains("cancelled"))
    );
}

#[test]
fn uncancelled_token_lets_the_decode_finish() {
    let token = CancellationToken::new();

    let image = decode_bytes(&png_bytes(3, 1), None, Rotation::Upright, Some(&token))
        .expect("decode succeeds");

    assert_eq!([image.width, image.height], [3, 1]);
}

#[test]
fn quarter_turn_rotation_swaps_decoded_dimensions() {
    let image = decode_bytes(&png_bytes(40, 20), None, Rotation::Cw90, None).expect("decode succeeds");

    assert_eq!([image.width, image.height], [20, 40]);
}

#[test]
fn three_quarter_turn_with_target_fits_the_turned_page() {
    let image = decode_bytes(&png_bytes(40, 20), Some([10, 10]), Rotation::Cw270, None)
        .expect("decode succeeds");

    assert_eq!([image.width, image.height], [5, 10]);
}

#[test]
fn half_turn_rotation_preserves_decoded_dimensions() {
    let image = decode_bytes(&png_bytes(40, 20), None, Rotation::Cw180, None).expect("decode succeeds");

    assert_eq!([image.width, image.height], [40, 20]);
}

#[test]
fn oversized_header_is_refused_before_decoding() {
    let image = ImageBuffer::from_pixel(1, 1, Rgba([0_u8, 0, 0, 255]));
    let mut cursor = std::io::Cursor::new(Vec::new());
    image.write_to(&mut cursor, ImageFormat::Png).expect("encode png");
    let mut bytes = cursor.into_inner();
    // The IHDR chunk starts at byte 16: width, then height, big-endian.
    bytes[16..20].copy_from_slice(&20_000u32.to_be_bytes());
    bytes[20..24].copy_from_slice(&20_000u32.to_be_bytes());
    let crc = crc32(&bytes[12..29]);
    bytes[29..33].copy_from_slice(&crc.to_be_bytes());

    assert_eq!(
        decode_bytes(&bytes, None, Rotation::Upright, None),
        Err(DecodeError::ImageTooLarge { width: 20_000, height: 20_000 })
    );
}

fn crc32(data: &[u8]) -> u32 {
    let mut crc = 0xffff_ffffu32;
    for &byte in data {
        crc ^= u32::from(byte);
        for _ in 0..8 {
            crc = if crc & 1 == 1 { (crc >> 1) ^ 0xedb8_8320 } else { crc >> 1 };
        }
    }
    !crc
}

#[test]
fn rotation_cycles_right_and_left_through_quarter_turns() {
    assert_eq!(Rotation::Upright.rotate_right(), Rotation::Cw90);
    assert_eq!(Rotation::Cw270.rotate_right(), Rotation::Upright);
    assert_eq!(Rotation::Upright.rotate_left(), Rotation::Cw270);
    assert_eq!(Rotation::Cw90.rotate_left(), Rotation::Upright);
    assert!(Rotation::Cw90.swaps_dimensions());
    assert!(Rotation::Cw270.swaps_dimensions());
    assert!(!Rotation::Upright.swaps_dimensions());
    assert!(!Rotation::Cw180.swaps_dimensions());
}

#[test]
fn turning_left_undoes_turning_right() {
    for rotation in [Rotation::Upright, Rotation::Cw90, Rotation::Cw180, Rotation::Cw270] {
        assert_eq!(rotation.rotate_right().rotate_left(), rotation);
        assert_eq!(rotation.rotate_left().rotate_right(), rotation);
        assert_eq!(
            rotation.rotate_right().rotate_right().rotate_right().rotate_right(),
            rotation
        );
    }
}

#[test]
fn cancellation_is_shared_between_clones() {
    let token = CancellationToken::new();
    let worker_copy = token.clone();

    assert!(!worker_copy.is_cancelled());
    token.cancel();
    assert!(worker_copy.is_cancelled());
}

#[test]
fn decode_errors_describe_themselves() {
    assert_eq!(
        DecodeError::EmptyBytes.message(),
        "decode request contained no image bytes"
    );
    assert_eq!(
        DecodeError::ImageTooLarge {
            width: 70000,
            height: 2
        }
        .message(),
        "decoded image dimensions are too large: 70000x2"
    );
    assert_eq!(WorkerError::QueueFull.message(), "decode request queue is full");
}

#[test]
fn pages_shrink_only_past_a_positive_target() {
    assert_eq!(target_bounds(40, 20, Some([10, 10])), Some((10, 10)));
    assert_eq!(target_bounds(8, 20, Some([10, 10])), Some((10, 10)));
    assert_eq!(target_bounds(8, 8, Some([10, 10])), None);
    assert_eq!(target_bounds(40, 20, Some([0, 10])), None);
    assert_eq!(target_bounds(40, 20, None), None);
}

#[test]
fn textures_hold_at_most_8192_pixels_a_side() {
    assert!(!exceeds_texture(8192, 8192));
    assert!(exceeds_texture(8193, 10));
    assert!(exceeds_texture(10, 8193));
}

fn two_pixel_png() -> Vec<u8> {
    let mut image = ImageBuffer::new(2, 1);
    image.put_pixel(0, 0, Rgba([1_u8, 2, 3, 255]));
    image.put_pixel(1, 0, Rgba([4_u8, 5, 6, 255]));
    let mut cursor = std::io::Cursor::new(Vec::new());
    image
        .write_to(&mut cursor, ImageFormat::Png)
        .expect("png encode");
    cursor.into_inner()
}

#[test]
fn rotation_moves_pixels_with_the_page() {
    let bytes = two_pixel_png();
    let a = [1_u8, 2, 3, 255];
    let b = [4_u8, 5, 6, 255];

    let upright = decode_bytes(&bytes, None, Rotation::Upright, None).expect("upright");
    assert_eq!((upright.width, upright.height), (2, 1));
    assert_eq!(upright.rgba, [a, b].concat());

    let quarter = decode_bytes(&bytes, None, Rotation::Cw90, None).expect("quarter");
    assert_eq!((quarter.width, quarter.height), (1, 2));
    assert_eq!(quarter.rgba, [a, b].concat());

    let half = decode_bytes(&bytes, None, Rotation::Cw180, None).expect("half");
    assert_eq!((half.width, half.height), (2, 1));
    assert_eq!(half.rgba, [b, a].concat());

    let three_quarters = decode_bytes(&bytes, None, Rotation::Cw270, None).expect("three quarters");
    assert_eq!((three_quarters.width, three_quarters.height), (1, 2));
    assert_eq!(three_quarters.rgba, [b, a].concat());
}

#[test]
fn a_set_cancel_flag_stops_the_decode() {
    assert!(cancellation_outcome(false).is_ok());
    assert_eq!(
        cancellation_outcome(true),
        Err(DecodeError::Image("decode request cancelled".to_owned()))
    );
}
