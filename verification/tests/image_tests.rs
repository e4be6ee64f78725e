use tmod_codec::errors::CodecError;
use tmod_codec::raw_image::image_from_raw;

#[test]
fn image_from_raw_exact_buffer() {
    let buf: Vec<u8> = (0..16u8).collect();
    let img = image_from_raw(2, 2, &buf).unwrap();
    assert_eq!(img.width, 2);
    assert_eq!(img.height, 2);
    assert_eq!(img.pixels, buf);
}

#[test]
fn image_from_raw_excess_is_ignored() {
    let mut buf: Vec<u8> = (0..16u8).collect();
    buf.extend_from_slice(&[99, 98, 97]);
    let img = image_from_raw(2, 2, &buf).unwrap();
    assert_eq!(img.pixels, &buf[..16]);
}

#[test]
fn image_from_raw_short_buffer_fails() {
    let buf: Vec<u8> = vec![0; 15];
    let r = image_from_raw(2, 2, &buf);
    assert_eq!(r.unwrap_err(), CodecError::InvalidBufferLength);
}

#[test]
fn image_from_raw_empty_buffer_fails() {
    let buf: Vec<u8> = Vec::new();
    let r = image_from_raw(1, 1, &buf);
    assert_eq!(r.unwrap_err(), CodecError::InvalidBufferLength);
}

#[test]
fn image_from_raw_zero_dimensions() {
    let buf: Vec<u8> = Vec::new();
    let img = image_from_raw(0, 7, &buf).unwrap();
    assert_eq!(img.width, 0);
    assert_eq!(img.height, 7);
    assert!(img.pixels.is_empty());
}

#[test]
fn image_from_raw_huge_dimensions_fail() {
    let buf: Vec<u8> = vec![0; 64];
    let r = image_from_raw(u32::MAX, u32::MAX, &buf);
    assert_eq!(r.unwrap_err(), CodecError::InvalidBufferLength);
}
