use passkeys::authenticator::{parse_authenticator_data, AuthenticatorDataError};
use sha2::{Digest, Sha256};

const RP_ID: &[u8] = b"example.com";

fn rp_hash() -> Vec<u8> {
    Sha256::new().chain_update(RP_ID).finalize().to_vec()
}

/// Hash, flags, counter: the 37-byte core of the blob.
fn blob_head(flags: u8) -> Vec<u8> {
    let mut blob = rp_hash();
    blob.push(flags);
    blob.extend_from_slice(&[0, 0, 0, 9]);
    blob
}

/// A full blob: head, 16 bytes of authenticator aaguid, a big-endian
/// credential-id length, and the id itself.
fn blob_with_cred_id(cred_id: &[u8]) -> Vec<u8> {
    let mut blob = blob_head(0x41);
    blob.extend_from_slice(&[0u8; 16]);
    let len = cred_id.len() as u16;
    blob.extend_from_slice(&len.to_be_bytes());
    blob.extend_from_slice(cred_id);
    blob
}

#[test]
fn valid_blob_with_credential_id() {
    let blob = blob_with_cred_id(b"credential-0001");
    let parsed = parse_authenticator_data(&blob, RP_ID);
    assert_eq!(parsed, Ok(Some(b"credential-0001".to_vec())));
}

#[test]
fn valid_blob_without_credential_id() {
    let blob = blob_head(0x01);
    assert_eq!(parse_authenticator_data(&blob, RP_ID), Ok(None));
    // A bare 33-byte blob is already acceptable.
    let short = blob_head(0x01)[..33].to_vec();
    assert_eq!(parse_authenticator_data(&short, RP_ID), Ok(None));
}

#[test]
fn too_short_blob() {
    let blob = rp_hash();
    assert_eq!(
        parse_authenticator_data(&blob, RP_ID),
        Err(AuthenticatorDataError::TooShort)
    );
    assert_eq!(
        parse_authenticator_data(b"", RP_ID),
        Err(AuthenticatorDataError::TooShort)
    );
}

#[test]
fn wrong_rp_id_hash() {
    let blob = blob_head(0x01);
    assert_eq!(
        parse_authenticator_data(&blob, b"other.example.com"),
        Err(AuthenticatorDataError::InvalidRpIdHash)
    );
    let mut tampered = blob_head(0x01);
    tampered[0] ^= 0x80;
    assert_eq!(
        parse_authenticator_data(&tampered, RP_ID),
        Err(AuthenticatorDataError::InvalidRpIdHash)
    );
}

#[test]
fn user_presence_flag_unset() {
    let blob = blob_head(0x40);
    assert_eq!(
        parse_authenticator_data(&blob, RP_ID),
        Err(AuthenticatorDataError::UserPresenceNotSet)
    );
}

#[test]
fn credential_id_length_past_end() {
    let mut blob = blob_with_cred_id(b"credential-0001");
    // Declare one byte more than the buffer holds.
    blob[54] += 1;
    assert_eq!(
        parse_authenticator_data(&blob, RP_ID),
        Err(AuthenticatorDataError::BadCredentialIdSize)
    );
}
