//! Round-trip test: encoding the canvas as a PNG and decoding it again
//! recovers every stored pixel code, including collision codes. The canvas
//! packs the leftmost pixel of each four-pixel group into the low bits of
//! its byte, while the PNG bit stream carries the leftmost pixel in the
//! high bits, so the decoded image holds each group's columns mirrored.

use waver::cli::{Height, Width};
use waver::color::Rgba;
use waver::image::WaveImage;

/// Reads the 2-bit pixel code at `(x, y)` from packed PNG rows.
fn packed_pixel(rows: &[u8], stride: usize, x: u32, y: u32) -> u8 {
    // The PNG stores four pixels per byte with the leftmost pixel in the
    // two most significant bits
    let byte = rows[y as usize * stride + (x / 4) as usize];
    let shift = 6 - 2 * (x % 4);
    (byte >> shift) & 3
}

#[test]
fn test_png_round_trip() {
    let width_val: u32 = 21;
    let height_val: u32 = 10;
    let width = Width::new(width_val).unwrap();
    let height = Height::new(height_val).unwrap();
    let mut image = WaveImage::new(width, height);

    // A mix of draws: a mono bar, a stereo pair, an overlap that yields the
    // collision code, and a no-op beyond the canvas
    image.draw_point_mono(2, 500_000);
    image.draw_point(5, 1_000_000, 400_000);
    image.draw_point_mono(7, 1_000_000);
    image.draw_point(7, 0, 1_000_000); // collides with the mono bar below center
    image.draw_point_mono(20, 700_000);
    image.draw_point_mono(21, 1_000_000); // beyond the last column: no effect

    let background = Rgba::new(255, 255, 255, 0);
    let left = Rgba::rgb(0, 255, 153);
    let right = Rgba::rgb(153, 255, 0);
    let bytes = image.encode_png(&background, &left, &right).unwrap();

    // Decode the stream with the PNG library and compare every pixel code
    let mut decoder = png::Decoder::new(std::io::Cursor::new(&bytes[..]));
    decoder.set_transformations(png::Transformations::IDENTITY);
    let mut reader = decoder.read_info().unwrap();
    let mut buf = vec![0u8; reader.output_buffer_size().unwrap()];
    let info = reader.next_frame(&mut buf).unwrap();
    assert_eq!(info.width, width_val);
    assert_eq!(info.height, height_val);

    // 2 bits per pixel, rows padded to whole bytes; the decoded pixel at
    // column x carries the canvas code of the mirrored column within its
    // four-pixel group (a column beyond the canvas width reads as padding)
    let stride = ((width_val as usize) * 2 + 7) / 8;
    for y in 0..height_val {
        for x in 0..width_val {
            let mirrored = 4 * (x / 4) + (3 - x % 4);
            assert_eq!(
                packed_pixel(&buf, stride, x, y),
                image.pixel_at(mirrored, y),
                "decoded pixel at ({}, {}) must match the canvas at its group position",
                x,
                y
            );
        }
    }

    // The overlap column carries the collision code above and below center
    assert_eq!(image.pixel_at(7, 0), 1); // upper half: left only
    assert_eq!(image.pixel_at(7, 6), 3); // lower half: left and right collided
}
