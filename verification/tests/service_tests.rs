use p256::ecdsa::signature::Signer;
use p256::ecdsa::{Signature, SigningKey, VerifyingKey};
use p256::pkcs8::EncodePublicKey;
use rand::rngs::OsRng;
use sha2::{Digest, Sha256};

use passkeys::base64::base64_encode;
use passkeys::registry::PasskeyRegistry;
use passkeys::service::{
    AuthenticationResponse, PasskeyService, RegistrationError, RegistrationResponse,
};

const BASE_URL: &[u8] = b"https://example.com";
const RP_ID: &[u8] = b"example.com";

fn b64(bytes: &[u8]) -> String {
    String::from_utf8(base64_encode(bytes)).unwrap()
}

fn service() -> PasskeyService {
    PasskeyService::try_new(PasskeyRegistry::new(), BASE_URL).unwrap()
}

fn creation_client_data() -> Vec<u8> {
    br#"{"type":"webauthn.create","origin":"https://example.com"}"#.to_vec()
}

fn assertion_client_data(challenge: &[u8]) -> Vec<u8> {
    format!(
        r#"{{"type":"webauthn.get","origin":"https://example.com","challenge":"{}"}}"#,
        b64(challenge)
    )
    .into_bytes()
}

/// Hash, flags with "user present" set, and a counter: a 37-byte blob.
fn assertion_auth_data() -> Vec<u8> {
    let mut blob = Sha256::new().chain_update(RP_ID).finalize().to_vec();
    blob.push(0x01);
    blob.extend_from_slice(&[0, 0, 0, 1]);
    blob
}

/// The registration blob: the 37-byte core, 16 bytes of aaguid, and the
/// credential id behind its big-endian length.
fn registration_auth_data(cred_id: &[u8]) -> Vec<u8> {
    let mut blob = assertion_auth_data();
    blob[32] = 0x41;
    blob.extend_from_slice(&[0u8; 16]);
    blob.extend_from_slice(&(cred_id.len() as u16).to_be_bytes());
    blob.extend_from_slice(cred_id);
    blob
}

fn keypair() -> (SigningKey, Vec<u8>) {
    let sk = SigningKey::random(&mut OsRng);
    let der = VerifyingKey::from(&sk)
        .to_public_key_der()
        .unwrap()
        .as_bytes()
        .to_vec();
    (sk, der)
}

fn register(service: &mut PasskeyService, cred_id: &[u8], public_key_der: &[u8]) {
    let resp = RegistrationResponse {
        client_data_json: creation_client_data(),
        authenticator_data: registration_auth_data(cred_id),
        public_key: public_key_der.to_vec(),
    };
    assert_eq!(service.finish_registration(resp), Ok(()));
}

fn sign_assertion(sk: &SigningKey, auth_data: &[u8], client_data: &[u8]) -> Vec<u8> {
    let mut signed = auth_data.to_vec();
    signed.extend_from_slice(&Sha256::new().chain_update(client_data).finalize());
    let signature: Signature = sk.sign(&signed);
    signature.to_der().as_bytes().to_vec()
}

fn assertion(sk: &SigningKey, cred_id: &[u8], challenge: &[u8]) -> AuthenticationResponse {
    let client_data_json = assertion_client_data(challenge);
    let authenticator_data = assertion_auth_data();
    let signature = sign_assertion(sk, &authenticator_data, &client_data_json);
    AuthenticationResponse {
        raw_id: cred_id.to_vec(),
        client_data_json,
        authenticator_data,
        signature,
    }
}

#[test]
fn valid_flow_registers_and_authenticates() {
    let mut service = service();
    let (sk, pk_der) = keypair();
    register(&mut service, b"cred-1", &pk_der);

    let challenge = service.start_authentication().challenge;
    let resp = assertion(&sk, b"cred-1", &challenge);
    assert!(service.finish_authentication(resp, challenge));
}

#[test]
fn origin_mismatch_is_refused() {
    let mut service = service();
    let (sk, pk_der) = keypair();
    register(&mut service, b"cred-1", &pk_der);

    let challenge = service.start_authentication().challenge;
    let client_data_json = format!(
        r#"{{"type":"webauthn.get","origin":"https://evil.example.net","challenge":"{}"}}"#,
        b64(&challenge)
    )
    .into_bytes();
    let authenticator_data = assertion_auth_data();
    let signature = sign_assertion(&sk, &authenticator_data, &client_data_json);
    let resp = AuthenticationResponse {
        raw_id: b"cred-1".to_vec(),
        client_data_json,
        authenticator_data,
        signature,
    };
    assert!(!service.finish_authentication(resp, challenge));
}

#[test]
fn replayed_challenge_is_refused() {
    let mut service = service();
    let (sk, pk_der) = keypair();
    register(&mut service, b"cred-1", &pk_der);

    let stale = service.start_authentication().challenge;
    let resp = assertion(&sk, b"cred-1", &stale);
    assert!(service.finish_authentication(resp, stale));

    // A fresh ceremony expects its own challenge; a response still carrying
    // the consumed one is refused, signature and all.
    let fresh = service.start_authentication().challenge;
    assert_ne!(stale, fresh);
    let replayed = assertion(&sk, b"cred-1", &stale);
    assert!(!service.finish_authentication(replayed, fresh));
}

#[test]
fn unknown_credential_is_refused() {
    let mut service = service();
    let (sk, pk_der) = keypair();
    register(&mut service, b"cred-1", &pk_der);

    let challenge = service.start_authentication().challenge;
    let resp = assertion(&sk, b"cred-2", &challenge);
    assert!(!service.finish_authentication(resp, challenge));
}

#[test]
fn tampered_signature_or_material_is_refused() {
    let mut service = service();
    let (sk, pk_der) = keypair();
    register(&mut service, b"cred-1", &pk_der);
    let challenge = service.start_authentication().challenge;

    // A flipped bit in the signature.
    let mut resp = assertion(&sk, b"cred-1", &challenge);
    let last = resp.signature.len() - 1;
    resp.signature[last] ^= 0x01;
    assert!(!service.finish_authentication(resp, challenge));

    // A flipped bit in the signed authenticator data (the counter, so the
    // blob still parses).
    let mut resp = assertion(&sk, b"cred-1", &challenge);
    resp.authenticator_data[36] ^= 0x01;
    assert!(!service.finish_authentication(resp, challenge));

    // A signature made by a different key.
    let (other_sk, _) = keypair();
    let resp = assertion(&other_sk, b"cred-1", &challenge);
    assert!(!service.finish_authentication(resp, challenge));
}

#[test]
fn registration_errors_are_distinct() {
    let mut service = service();
    let (_, pk_der) = keypair();

    let resp = RegistrationResponse {
        client_data_json: creation_client_data(),
        authenticator_data: registration_auth_data(b"cred-1"),
        public_key: b"not a key".to_vec(),
    };
    assert_eq!(
        service.finish_registration(resp),
        Err(RegistrationError::InvalidPublicKey)
    );

    let resp = RegistrationResponse {
        client_data_json: br#"{"type":"webauthn.get","origin":"https://example.com"}"#.to_vec(),
        authenticator_data: registration_auth_data(b"cred-1"),
        public_key: pk_der.clone(),
    };
    assert_eq!(
        service.finish_registration(resp),
        Err(RegistrationError::InvalidClientData)
    );

    // A blob without a credential id is not enough to register.
    let resp = RegistrationResponse {
        client_data_json: creation_client_data(),
        authenticator_data: assertion_auth_data(),
        public_key: pk_der.clone(),
    };
    assert_eq!(
        service.finish_registration(resp),
        Err(RegistrationError::InvalidAuthenticatorData)
    );

    register(&mut service, b"cred-1", &pk_der);
    let resp = RegistrationResponse {
        client_data_json: creation_client_data(),
        authenticator_data: registration_auth_data(b"cred-1"),
        public_key: pk_der.clone(),
    };
    assert_eq!(
        service.finish_registration(resp),
        Err(RegistrationError::PasskeyIdConflict)
    );
}

#[test]
fn count_increases_by_one_per_registration() {
    let mut service = service();
    assert_eq!(service.registry.count(), 0);
    assert!(!service.any_registered());

    let (_, pk_der) = keypair();
    register(&mut service, b"cred-1", &pk_der);
    assert_eq!(service.registry.count(), 1);
    assert!(service.any_registered());

    let (_, pk_der_2) = keypair();
    register(&mut service, b"cred-2", &pk_der_2);
    assert_eq!(service.registry.count(), 2);

    // A failed registration leaves the count alone.
    let resp = RegistrationResponse {
        client_data_json: creation_client_data(),
        authenticator_data: registration_auth_data(b"cred-1"),
        public_key: pk_der,
    };
    assert!(service.finish_registration(resp).is_err());
    assert_eq!(service.registry.count(), 2);
}

#[test]
fn challenge_lists_exactly_the_registered_ids() {
    let mut service = service();
    let registration = service.start_registration("admin", b"user-1");
    assert_eq!(registration.rp_id, RP_ID.to_vec());
    assert_eq!(registration.username, "admin");
    assert_eq!(registration.user_id, b"user-1".to_vec());
    assert_eq!(registration.passkey_ids, Vec::<Vec<u8>>::new());

    let (_, pk_der) = keypair();
    register(&mut service, b"cred-1", &pk_der);

    let authentication = service.start_authentication();
    assert_eq!(authentication.rp_id, RP_ID.to_vec());
    assert_eq!(authentication.passkey_ids, vec![b"cred-1".to_vec()]);
    assert_eq!(authentication.challenge.len(), 32);
}

#[test]
fn base_url_must_be_a_url_with_a_host() {
    assert!(PasskeyService::try_new(PasskeyRegistry::new(), b"not a url").is_none());
    assert!(PasskeyService::try_new(PasskeyRegistry::new(), b"data:text/plain,x").is_none());
}

#[test]
fn rp_id_is_the_host_of_the_base_url() {
    let service =
        PasskeyService::try_new(PasskeyRegistry::new(), b"https://blog.example.com:8443/notes")
            .unwrap();
    assert_eq!(service.rp_id, b"blog.example.com".to_vec());
}
