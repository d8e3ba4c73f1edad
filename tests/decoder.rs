use std::cell::RefCell;

use image_core::{
    chunk_size, ColorType, ExtendedColorType, ImageDecoder, ImageError,
    MemoryDecoder, MemoryReader, Progress,
};

fn pattern(n: usize) -> Vec<u8> {
    (0..n).map(|i| (i * 7 + 3) as u8).collect()
}

#[test]
fn remaining_is_clamped() {
    let p = Progress { current: 10, total: 5 };
    assert_eq!(p.remaining(), 0);
    assert_eq!(p.current(), 10);
    assert_eq!(p.total(), 5);
}

#[test]
fn remaining_counts_down() {
    let p = Progress { current: 3, total: 10 };
    assert_eq!(p.remaining(), 7);
    assert_eq!(Progress { current: 0, total: 0 }.remaining(), 0);
    assert_eq!(Progress { current: 0, total: u64::MAX }.remaining(), u64::MAX);
}

#[test]
fn chunk_size_batches_small_scanlines() {
    assert_eq!(chunk_size(1), 4096);
    assert_eq!(chunk_size(100), 4000);
    assert_eq!(chunk_size(2000), 4000);
    assert_eq!(chunk_size(3000), 3000);
    assert_eq!(chunk_size(4095), 4095);
}

#[test]
fn chunk_size_keeps_large_scanlines() {
    assert_eq!(chunk_size(4096), 4096);
    assert_eq!(chunk_size(5000), 5000);
    assert_eq!(chunk_size(u64::MAX), u64::MAX);
}

#[test]
fn chunk_size_is_largest_multiple() {
    for s in 1..4096u64 {
        let c = chunk_size(s);
        assert_eq!(c % s, 0);
        assert!(c <= 4096);
        assert!(c + s > 4096);
    }
}

#[test]
fn total_bytes_is_product() {
    let d = MemoryDecoder::new(10, 7, ColorType::Rgb16, Vec::new());
    assert_eq!(d.total_bytes(), 10 * 7 * 6);
    let big = MemoryDecoder::new(1 << 20, 1 << 20, ColorType::Rgba16, Vec::new());
    assert_eq!(big.total_bytes(), (1u64 << 40) * 8);
    let empty = MemoryDecoder::new(0, 0, ColorType::L8, Vec::new());
    assert_eq!(empty.total_bytes(), 0);
}

#[test]
fn original_color_type_defaults_to_extension() {
    let d = MemoryDecoder::new(1, 1, ColorType::Bgra8, vec![0; 4]);
    assert_eq!(d.original_color_type(), ExtendedColorType::Bgra8);
    assert_eq!(d.dimensions(), (1, 1));
    assert_eq!(d.color_type(), ColorType::Bgra8);
}

#[test]
fn progress_reports_each_chunk() {
    // 2000 bytes a row and 10000 in all: two rows fit the 4096-byte window.
    let data = pattern(10000);
    let d = MemoryDecoder::new(2000, 5, ColorType::L8, data.clone());
    assert_eq!(d.scanline_bytes(), 2000);
    assert_eq!(d.total_bytes(), 10000);
    let seen = RefCell::new(Vec::new());
    let mut buf = vec![0u8; 10000];
    let r = d.read_image_with_progress(&mut buf, |p| seen.borrow_mut().push(p));
    assert_eq!(r, Ok(()));
    let seen = seen.into_inner();
    let currents: Vec<u64> = seen.iter().map(|p| p.current).collect();
    assert_eq!(currents, vec![4000, 8000, 10000]);
    assert!(seen.iter().all(|p| p.total == 10000));
    assert_eq!(buf, data);
}

#[test]
fn progress_with_large_scanlines() {
    let data = pattern(3 * 5000);
    let d = MemoryDecoder::new(5000, 3, ColorType::L8, data.clone());
    let seen = RefCell::new(Vec::new());
    let mut buf = vec![0u8; 15000];
    let r = d.read_image_with_progress(&mut buf, |p| seen.borrow_mut().push(p.current));
    assert_eq!(r, Ok(()));
    assert_eq!(seen.into_inner(), vec![5000, 10000, 15000]);
    assert_eq!(buf, data);
}

#[test]
fn read_image_round_trip() {
    let data = pattern(4 * 3 * 3);
    let d = MemoryDecoder::new(4, 3, ColorType::Rgb8, data.clone());
    let mut buf = vec![0u8; 36];
    assert_eq!(d.read_image(&mut buf), Ok(()));
    assert_eq!(buf, data);
}

#[test]
fn read_image_of_empty_image() {
    let d = MemoryDecoder::new(0, 0, ColorType::L8, Vec::new());
    let mut buf: Vec<u8> = Vec::new();
    assert_eq!(d.read_image(&mut buf), Ok(()));
}

#[test]
fn longer_data_reads_the_image_prefix() {
    let data = pattern(20);
    let d = MemoryDecoder::new(4, 4, ColorType::L8, data.clone());
    let mut buf = vec![0u8; 16];
    assert_eq!(d.read_image(&mut buf), Ok(()));
    assert_eq!(&buf[..], &data[..16]);
}

#[test]
fn reader_reads_exactly() {
    let mut r = MemoryReader::new(vec![1, 2, 3, 4, 5]);
    let mut a = [0u8; 2];
    assert_eq!(image_core::ByteReader::read_exact(&mut r, &mut a), Ok(()));
    assert_eq!(a, [1, 2]);
    assert_eq!(r.remaining(), 3);
    let mut b = [0u8; 4];
    assert_eq!(image_core::ByteReader::read_exact(&mut r, &mut b), Err(ImageError::Io));
    let mut c = [0u8; 3];
    assert_eq!(image_core::ByteReader::read_exact(&mut r, &mut c), Ok(()));
    assert_eq!(c, [3, 4, 5]);
    assert_eq!(r.remaining(), 0);
}

#[test]
fn truncated_data_is_a_decoding_error() {
    let d = MemoryDecoder::new(2, 2, ColorType::L8, vec![1, 2, 3]);
    let mut buf = vec![0u8; 4];
    assert_eq!(d.read_image(&mut buf), Err(ImageError::Decoding));
}

#[test]
fn into_reader_yields_the_data() {
    let d = MemoryDecoder::new(2, 1, ColorType::La8, vec![9, 8, 7, 6]);
    let r = d.into_reader().unwrap();
    assert_eq!(r.remaining(), 4);
    let short = MemoryDecoder::new(2, 1, ColorType::La8, vec![9, 8, 7]);
    assert!(matches!(short.into_reader(), Err(ImageError::Decoding)));
}
