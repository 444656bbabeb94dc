//! Trusted bindings to the cryptographic collaborators: the SHA-256 digest,
//! the constant-time byte comparison, the ECDSA P-256 verifier, and the
//! random challenge source.  Everything else in this crate is verified
//! against the contracts stated here.

use vstd::prelude::*;

use p256::ecdsa::signature::Verifier;
use p256::pkcs8::DecodePublicKey;
use rand::Rng;
use sha2::Digest;

verus! {

/// The SHA-256 digest of a byte sequence.  The digest function itself lives
/// outside this crate, so its result is only named here, never defined.
pub uninterp spec fn sha256_of(data: Seq<u8>) -> Seq<u8>;

/// Relies on sha2's SHA-256: the digest depends on the input bytes alone
/// and is always 32 bytes long.
#[verifier::external_body]
pub fn sha256(data: &[u8]) -> (r: Vec<u8>)
    ensures
        r@ == sha256_of(data@),
        r@.len() == 32,
{
    sha2::Sha256::new().chain_update(data).finalize().to_vec()
}

/// Relies on constant_time_eq::constant_time_eq: true exactly when the two
/// slices have equal length and contents, examined without an early exit
/// tied to the position of the first differing byte.
#[verifier::external_body]
pub fn ct_bytes_eq(a: &[u8], b: &[u8]) -> (r: bool)
    ensures
        r == (a@ == b@),
{
    constant_time_eq::constant_time_eq(a, b)
}

/// Whether a DER blob (SubjectPublicKeyInfo form) decodes as a P-256 ECDSA
/// verifying key; a function of the bytes alone.
pub uninterp spec fn spki_p256_valid(der: Seq<u8>) -> bool;

/// Relies on p256's VerifyingKey::from_public_key_der: whether the DER blob
/// decodes depends on the bytes alone.
#[verifier::external_body]
pub fn p256_public_key_decodes(der: &[u8]) -> (r: bool)
    ensures
        r == spki_p256_valid(der@),
{
    p256::ecdsa::VerifyingKey::from_public_key_der(der).is_ok()
}

/// Whether `sig_der` is a DER-encoded ECDSA signature that verifies over
/// `msg` under the P-256 public key in the DER blob `key_der`; false when
/// either blob fails to decode.  A function of the three byte strings alone.
pub uninterp spec fn ecdsa_p256_verifies(key_der: Seq<u8>, msg: Seq<u8>, sig_der: Seq<u8>) -> bool;

/// Relies on p256's VerifyingKey::from_public_key_der, Signature::from_der
/// and ECDSA verification, which is deterministic in key, message and
/// signature.  A decode failure is deliberately indistinguishable from a
/// signature mismatch: both are plain `false`.
#[verifier::external_body]
pub fn ecdsa_p256_verify(key_der: &[u8], msg: &[u8], sig_der: &[u8]) -> (r: bool)
    ensures
        r == ecdsa_p256_verifies(key_der@, msg@, sig_der@),
        !spki_p256_valid(key_der@) ==> !r,
{
    let Ok(key) = p256::ecdsa::VerifyingKey::from_public_key_der(key_der) else {
        return false;
    };
    let Ok(sig) = p256::ecdsa::Signature::from_der(sig_der) else {
        return false;
    };
    key.verify(msg, &sig).is_ok()
}

/// Relies on rand's thread_rng, a cryptographically secure generator.
/// Nothing can be promised of a random value, so nothing is.
#[verifier::external_body]
pub fn random_bytes_32() -> [u8; 32] {
    rand::thread_rng().gen::<[u8; 32]>()
}

} // verus!
