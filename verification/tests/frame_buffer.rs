use softrender::colour::Colour;
use softrender::frame_buffer::{convert_coordinates, FrameBufError, FrameBuffer};

fn blank_buffer(width: usize, height: usize) -> FrameBuffer<Vec<Colour>> {
    FrameBuffer::new(width, height, vec![Colour::new(); width * height])
}

#[test]
fn test_convert_coordinates() {
    // Bottom-left origin: y is flipped into a top-first row-major index.
    assert_eq!(convert_coordinates(1, 2, 4, 4), Ok(1 + (4 - 1 - 2) * 4));
    assert_eq!(convert_coordinates(0, 0, 4, 4), Ok(12));
    assert_eq!(convert_coordinates(3, 3, 4, 4), Ok(3));
    assert_eq!(convert_coordinates(4, 0, 4, 4), Err(FrameBufError::PixelOutsideBuf));
    assert_eq!(convert_coordinates(0, 4, 4, 4), Err(FrameBufError::PixelOutsideBuf));
}

#[test]
fn test_write_read_buf() {
    let mut fb = blank_buffer(4, 4);
    let red = Colour::from_channels(255, 0, 0, 255);
    assert_eq!(fb.write_buf(1, 2, &red), Ok(()));
    assert_eq!(fb.read_buf(1, 2), Ok(red));
    assert_eq!(fb.read_buf(2, 1), Ok(Colour::new()));
}

#[test]
fn test_write_read_out_of_bounds() {
    let mut fb = blank_buffer(4, 4);
    let red = Colour::from_channels(255, 0, 0, 255);
    assert_eq!(fb.write_buf(4, 0, &red), Err(FrameBufError::PixelOutsideBuf));
    assert_eq!(fb.read_buf(0, 4), Err(FrameBufError::PixelOutsideBuf));
}

#[test]
fn test_clear_buf() {
    let mut fb = blank_buffer(3, 3);
    let green = Colour::from_channels(0, 255, 0, 255);
    assert_eq!(fb.write_buf(2, 2, &green), Ok(()));
    fb.clear_buf();
    for x in 0..3 {
        for y in 0..3 {
            assert_eq!(fb.read_buf(x, y), Ok(Colour::new()));
        }
    }
}

#[test]
fn test_scale() {
    let mut small = blank_buffer(2, 2);
    let red = Colour::from_channels(255, 0, 0, 255);
    let blue = Colour::from_channels(0, 0, 255, 255);
    small.write_buf(0, 0, &red).unwrap();
    small.write_buf(1, 1, &blue).unwrap();

    let mut scaled = blank_buffer(4, 4);
    assert_eq!(small.scale(&mut scaled, 2), Ok(()));
    for x in 0..4 {
        for y in 0..4 {
            let expected = if x < 2 && y < 2 {
                red
            } else if x >= 2 && y >= 2 {
                blue
            } else {
                Colour::new()
            };
            assert_eq!(scaled.read_buf(x, y), Ok(expected));
        }
    }
}

#[test]
fn test_colour_saturating_add() {
    let a = Colour::from_channels(200, 100, 0, 250);
    let b = Colour::from_channels(100, 55, 1, 10);
    let sum = a.saturating_add(&b);
    assert_eq!(sum, Colour::from_channels(255, 155, 1, 255));
}

#[test]
fn test_colour_to_bytes() {
    let c = Colour::from_channels(1, 2, 3, 4);
    assert_eq!(c.to_bytes(), [1, 2, 3, 4]);
}
