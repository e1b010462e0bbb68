use heprint::codec::decode_hex;
use heprint::render::pdf_from_base64;

#[test]
fn hex_with_spaces_and_odd_tail() {
    assert_eq!(decode_hex("1b 40\n0A").unwrap(), vec![0x1b, 0x40, 0x0a]);
    assert_eq!(decode_hex("abc").unwrap(), vec![0xab]);
    assert_eq!(decode_hex("").unwrap(), Vec::<u8>::new());
    assert!(decode_hex("g0").is_err());
}

#[test]
fn hex_of_bytes_reads_back() {
    let bytes: Vec<u8> = (0u8..=255).collect();
    let text: String = bytes.iter().map(|b| format!("{b:02x}")).collect();
    assert_eq!(decode_hex(&text).unwrap(), bytes);
}

#[test]
fn standard_base64() {
    assert_eq!(pdf_from_base64("SGVsbG8=").unwrap(), b"Hello".to_vec());
    assert!(pdf_from_base64("SGVsbG8").is_err());
}
