use passkeys::base64::{base64_encode, base64_encode_url_safe};
use passkeys::client_data::CollectedClientData;

const ORIGIN_NORM: &[u8] = b"https://example.com/";
const CREATE: &[u8] = b"webauthn.create";
const GET: &[u8] = b"webauthn.get";

fn b64(bytes: &[u8]) -> String {
    String::from_utf8(base64_encode(bytes)).unwrap()
}

#[test]
fn valid_creation_client_data() {
    let json = br#"{"type":"webauthn.create","origin":"https://example.com","crossOrigin":false}"#;
    assert!(CollectedClientData::is_valid(json, ORIGIN_NORM, CREATE, None));
}

#[test]
fn origin_is_compared_as_a_url() {
    // Case and an explicit default port disappear under normalization.
    let json = br#"{"type":"webauthn.create","origin":"HTTPS://EXAMPLE.com:443"}"#;
    assert!(CollectedClientData::is_valid(json, ORIGIN_NORM, CREATE, None));
    let json = br#"{"type":"webauthn.create","origin":"https://example.com:8443"}"#;
    assert!(!CollectedClientData::is_valid(json, ORIGIN_NORM, CREATE, None));
    let json = br#"{"type":"webauthn.create","origin":"not a url"}"#;
    assert!(!CollectedClientData::is_valid(json, ORIGIN_NORM, CREATE, None));
}

#[test]
fn wrong_type_is_rejected() {
    let json = br#"{"type":"webauthn.get","origin":"https://example.com"}"#;
    assert!(!CollectedClientData::is_valid(json, ORIGIN_NORM, CREATE, None));
    let json = br#"{"origin":"https://example.com"}"#;
    assert!(!CollectedClientData::is_valid(json, ORIGIN_NORM, CREATE, None));
}

#[test]
fn cross_origin_true_is_rejected() {
    let json = br#"{"type":"webauthn.create","origin":"https://example.com","crossOrigin":true}"#;
    assert!(!CollectedClientData::is_valid(json, ORIGIN_NORM, CREATE, None));
    let json = br#"{"type":"webauthn.create","origin":"https://example.com","crossOrigin":null}"#;
    assert!(CollectedClientData::is_valid(json, ORIGIN_NORM, CREATE, None));
}

#[test]
fn malformed_json_is_rejected() {
    assert!(!CollectedClientData::is_valid(b"", ORIGIN_NORM, CREATE, None));
    assert!(!CollectedClientData::is_valid(b"[]", ORIGIN_NORM, CREATE, None));
    assert!(!CollectedClientData::is_valid(b"{\"type\":7}", ORIGIN_NORM, CREATE, None));
    let json = br#"{"type":"webauthn.create","origin":"https://example.com","crossOrigin":"yes"}"#;
    assert!(!CollectedClientData::is_valid(json, ORIGIN_NORM, CREATE, None));
}

#[test]
fn challenge_must_match_when_expected() {
    let challenge = [7u8; 32];
    let json = format!(
        r#"{{"type":"webauthn.get","origin":"https://example.com","challenge":"{}"}}"#,
        b64(&challenge)
    );
    assert!(CollectedClientData::is_valid(json.as_bytes(), ORIGIN_NORM, GET, Some(&challenge)));
    assert!(!CollectedClientData::is_valid(json.as_bytes(), ORIGIN_NORM, GET, Some(&[8u8; 32])));
    // Without an expected challenge the carried one is only decoded.
    assert!(CollectedClientData::is_valid(json.as_bytes(), ORIGIN_NORM, GET, None));
}

#[test]
fn challenge_may_arrive_url_safe() {
    let challenge = [0xfbu8; 32];
    let json = format!(
        r#"{{"type":"webauthn.get","origin":"https://example.com","challenge":"{}"}}"#,
        String::from_utf8(base64_encode_url_safe(&challenge)).unwrap()
    );
    assert!(CollectedClientData::is_valid(json.as_bytes(), ORIGIN_NORM, GET, Some(&challenge)));
}

#[test]
fn absent_challenge_mismatches_expected() {
    let json = br#"{"type":"webauthn.get","origin":"https://example.com"}"#;
    assert!(!CollectedClientData::is_valid(json, ORIGIN_NORM, GET, Some(&[7u8; 32])));
    // Any expected challenge, even an empty one, mismatches an absent one.
    assert!(!CollectedClientData::is_valid(json, ORIGIN_NORM, GET, Some(b"")));
    assert!(CollectedClientData::is_valid(json, ORIGIN_NORM, GET, None));
}

#[test]
fn undecodable_challenge_poisons_the_document() {
    let json = br#"{"type":"webauthn.get","origin":"https://example.com","challenge":"!!!"}"#;
    assert!(!CollectedClientData::is_valid(json, ORIGIN_NORM, GET, None));
    assert!(!CollectedClientData::is_valid(json, ORIGIN_NORM, GET, Some(&[7u8; 32])));
}
