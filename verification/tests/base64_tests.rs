use passkeys::base64::{
    base64_decode, base64_decode_standard, base64_decode_url_safe, base64_encode,
    base64_encode_url_safe,
};

fn encode_str(bytes: &[u8]) -> String {
    String::from_utf8(base64_encode(bytes)).unwrap()
}

fn encode_url_str(bytes: &[u8]) -> String {
    String::from_utf8(base64_encode_url_safe(bytes)).unwrap()
}

#[test]
fn known_standard_vectors() {
    assert_eq!(encode_str(b""), "");
    assert_eq!(encode_str(b"f"), "Zg==");
    assert_eq!(encode_str(b"fo"), "Zm8=");
    assert_eq!(encode_str(b"foo"), "Zm9v");
    assert_eq!(encode_str(b"foob"), "Zm9vYg==");
    assert_eq!(encode_str(b"fooba"), "Zm9vYmE=");
    assert_eq!(encode_str(b"foobar"), "Zm9vYmFy");
}

#[test]
fn known_url_safe_vectors() {
    assert_eq!(encode_url_str(b"f"), "Zg");
    assert_eq!(encode_url_str(b"fo"), "Zm8");
    assert_eq!(encode_url_str(b"foobar"), "Zm9vYmFy");
    // Bytes whose sextets reach the two characters that differ by alphabet.
    assert_eq!(encode_str(&[0xfb, 0xff]), "+/8=");
    assert_eq!(encode_url_str(&[0xfb, 0xff]), "-_8");
}

#[test]
fn round_trip_standard_then_adapter() {
    let cases: Vec<Vec<u8>> = vec![
        vec![],
        vec![0],
        vec![255],
        vec![1, 2],
        vec![251, 255, 190],
        b"any carnal pleasure.".to_vec(),
        (0u8..=255).collect(),
    ];
    for bytes in cases {
        let encoded = base64_encode(&bytes);
        assert_eq!(base64_decode(&encoded), Some(bytes));
    }
}

#[test]
fn round_trip_url_safe_then_adapter() {
    let cases: Vec<Vec<u8>> = vec![
        vec![],
        vec![0],
        vec![255],
        vec![251, 255],
        vec![251, 255, 190, 7],
        (0u8..=255).collect(),
    ];
    for bytes in cases {
        let encoded = base64_encode_url_safe(&bytes);
        assert_eq!(base64_decode(&encoded), Some(bytes));
    }
}

#[test]
fn decoder_is_lenient_encoder_is_not() {
    // The decoder accepts both variants of the same bytes; the encoder
    // emits only the standard padded form.
    let bytes = vec![251u8, 255, 190];
    assert_eq!(base64_decode(b"+/++"), base64_decode(b"-_--"));
    assert_eq!(base64_encode(&bytes), b"+/++".to_vec());
    assert_eq!(base64_decode(b"Zg=="), Some(b"f".to_vec()));
    assert_eq!(base64_decode(b"Zg"), Some(b"f".to_vec()));
}

#[test]
fn strict_decoders_reject_the_other_variant() {
    assert_eq!(base64_decode_standard(b"Zg"), None);
    assert_eq!(base64_decode_standard(b"-_8="), None);
    assert_eq!(base64_decode_url_safe(b"Zg=="), None);
    assert_eq!(base64_decode_url_safe(b"+/8"), None);
}

#[test]
fn malformed_text_is_rejected() {
    assert_eq!(base64_decode(b"A"), None);
    assert_eq!(base64_decode(b"A==="), None);
    assert_eq!(base64_decode(b"===="), None);
    assert_eq!(base64_decode(b"Zg= "), None);
    assert_eq!(base64_decode(b"Z\ng="), None);
    assert_eq!(base64_decode(b"Zm8=Zm8="), None);
    // Nonzero unused low bits in the final sextet.
    assert_eq!(base64_decode(b"Zh=="), None);
    assert_eq!(base64_decode(b"Zh"), None);
}
