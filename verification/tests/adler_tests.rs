use tmod_codec::adler::Adler32;

#[test]
fn adler_of_empty_input_is_one() {
    let acc = Adler32::new();
    assert_eq!(acc.finish(), 1);
}

#[test]
fn adler_known_value() {
    let mut acc = Adler32::new();
    acc.update(&b"Wikipedia".to_vec());
    assert_eq!(acc.finish(), 0x11E6_0398);
}

#[test]
fn adler_is_incremental() {
    let mut one = Adler32::new();
    one.update(&b"hello world".to_vec());

    let mut two = Adler32::new();
    two.update(&b"hello ".to_vec());
    two.update(&b"world".to_vec());

    assert_eq!(one.finish(), two.finish());
}

#[test]
fn adler_wraps_at_the_modulus() {
    let mut acc = Adler32::new();
    acc.update(&vec![255u8; 5000]);
    let checksum = acc.finish();
    assert!(checksum & 0xFFFF < 65521);
    assert!(checksum >> 16 < 65521);
}
