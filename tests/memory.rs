use image_core::{ColorType, ImageDecoder, ImageDecoderExt, ImageError, MemoryDecoder};

fn numbered(n: usize) -> Vec<u8> {
    (0..n).map(|i| i as u8).collect()
}

#[test]
fn read_rect_takes_the_sub_rectangle() {
    let data = numbered(100);
    let mut d = MemoryDecoder::new(10, 10, ColorType::L8, data);
    let mut buf = vec![0u8; 4 * 5];
    assert_eq!(d.read_rect(2, 3, 4, 5, &mut buf), Ok(()));
    let mut expected = Vec::new();
    for row in 3..8 {
        for col in 2..6 {
            expected.push((row * 10 + col) as u8);
        }
    }
    assert_eq!(buf, expected);
}

#[test]
fn read_rect_with_wide_pixels() {
    let data = numbered(10 * 10 * 3);
    let mut d = MemoryDecoder::new(10, 10, ColorType::Rgb8, data.clone());
    let mut buf = vec![0u8; 4 * 5 * 3];
    assert_eq!(d.read_rect(2, 3, 4, 5, &mut buf), Ok(()));
    assert_eq!(buf.len(), 4 * 5 * ColorType::Rgb8.bytes_per_pixel() as usize);
    let mut expected = Vec::new();
    for row in 3..8 {
        let start = (row * 10 + 2) * 3;
        expected.extend_from_slice(&data[start..start + 12]);
    }
    assert_eq!(buf, expected);
}

#[test]
fn read_rect_whole_image() {
    let data = numbered(6 * 2 * 2);
    let mut d = MemoryDecoder::new(6, 2, ColorType::La8, data.clone());
    let mut buf = vec![0u8; 24];
    assert_eq!(d.read_rect(0, 0, 6, 2, &mut buf), Ok(()));
    assert_eq!(buf, data);
    assert_eq!(d.dimensions(), (6, 2));
}

#[test]
fn read_rect_empty() {
    let mut d = MemoryDecoder::new(3, 3, ColorType::L8, numbered(9));
    let mut buf: Vec<u8> = Vec::new();
    assert_eq!(d.read_rect(1, 1, 0, 2, &mut buf), Ok(()));
}

#[test]
fn read_rect_reports_rows() {
    let mut d = MemoryDecoder::new(10, 10, ColorType::L8, numbered(100));
    let seen = std::cell::RefCell::new(Vec::new());
    let mut buf = vec![0u8; 12];
    let r = d.read_rect_with_progress(1, 1, 4, 3, &mut buf, |p| seen.borrow_mut().push((p.current, p.total)));
    assert_eq!(r, Ok(()));
    assert_eq!(seen.into_inner(), vec![(4, 12), (8, 12), (12, 12)]);
}

#[test]
fn read_rect_of_truncated_image() {
    let mut d = MemoryDecoder::new(10, 10, ColorType::L8, numbered(99));
    let mut buf = vec![0u8; 4];
    assert_eq!(d.read_rect(0, 0, 2, 2, &mut buf), Err(ImageError::Decoding));
}

#[test]
fn memory_scanline_is_a_row() {
    let d = MemoryDecoder::new(7, 3, ColorType::Rgba16, Vec::new());
    assert_eq!(d.scanline_bytes(), 56);
}
