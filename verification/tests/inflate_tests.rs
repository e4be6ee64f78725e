use tmod_codec::errors::CodecError;
use tmod_codec::inflate::decompress_block;

// A stored (uncompressed), final DEFLATE block of length zero:
// BFINAL=1, BTYPE=00, then LEN=0x0000 and NLEN=0xFFFF.
const STORED_EMPTY: [u8; 5] = [0x01, 0x00, 0x00, 0xFF, 0xFF];

// A stored, final DEFLATE block holding the four bytes "abcd":
// LEN=0x0004, NLEN=0xFFFB.
const STORED_ABCD: [u8; 9] = [0x01, 0x04, 0x00, 0xFB, 0xFF, b'a', b'b', b'c', b'd'];

#[test]
fn empty_stored_block_yields_zero_bytes() {
    let out = decompress_block(&STORED_EMPTY.to_vec(), 8).unwrap();
    assert_eq!(out.len(), 0);
}

#[test]
fn empty_stored_block_with_zero_capacity() {
    let out = decompress_block(&STORED_EMPTY.to_vec(), 0).unwrap();
    assert_eq!(out.len(), 0);
}

#[test]
fn empty_fixed_huffman_block_yields_zero_bytes() {
    // BFINAL=1, BTYPE=01, then the fixed-table end-of-block code.
    let out = decompress_block(&[0x03, 0x00].to_vec(), 4).unwrap();
    assert_eq!(out.len(), 0);
}

#[test]
fn stored_block_round_trips() {
    let out = decompress_block(&STORED_ABCD.to_vec(), 4).unwrap();
    assert_eq!(out, b"abcd");
}

#[test]
fn stored_block_capacity_one_short_fails() {
    let r = decompress_block(&STORED_ABCD.to_vec(), 3);
    assert_eq!(r.unwrap_err(), CodecError::BufferTooSmall);
}

#[test]
fn stored_block_generous_capacity() {
    let out = decompress_block(&STORED_ABCD.to_vec(), 100).unwrap();
    assert_eq!(out, b"abcd");
}

#[test]
fn empty_input_is_invalid() {
    let r = decompress_block(&Vec::new(), 16);
    assert_eq!(r.unwrap_err(), CodecError::InvalidInput);
}

#[test]
fn reserved_block_type_fails() {
    // BFINAL=1, BTYPE=11 (reserved) must be reported, not decoded.
    let r = decompress_block(&[0x07, 0x00, 0x00].to_vec(), 16);
    assert_eq!(r.unwrap_err(), CodecError::DecodeFailure);
}

#[test]
fn fdeflate_compressed_payload_round_trips() {
    let data: Vec<u8> = (0..200u32).map(|i| (i * 7 % 251) as u8).collect();
    let zlib = fdeflate::compress_to_vec(&data);
    // Strip the two-byte zlib header and the four-byte checksum: what
    // is left is the raw DEFLATE block stream, as a container entry
    // would hold it.
    let raw = zlib[2..zlib.len() - 4].to_vec();
    let out = decompress_block(&raw, data.len()).unwrap();
    assert_eq!(out, data);
}

#[test]
fn fdeflate_compressed_payload_capacity_one_short_fails() {
    let data: Vec<u8> = (0..200u32).map(|i| (i * 3 % 256) as u8).collect();
    let zlib = fdeflate::compress_to_vec(&data);
    let raw = zlib[2..zlib.len() - 4].to_vec();
    let r = decompress_block(&raw, data.len() - 1);
    assert_eq!(r.unwrap_err(), CodecError::BufferTooSmall);
}
