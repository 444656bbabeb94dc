//! The authenticator-data parser: the fixed-layout binary blob an
//! authenticator produces.  Bytes 0..32 hold SHA-256 of the relying-party
//! id, byte 32 holds the flags (bit 0: user present), bytes 33..37 hold a
//! signature counter this core ignores, and, when the blob runs past 55
//! bytes, bytes 53..55 hold a big-endian credential-id length followed by
//! that many credential-id bytes.

use vstd::prelude::*;

use crate::crypto::{ct_bytes_eq, sha256, sha256_of};

verus! {

/// Why an authenticator-data blob was rejected.
#[derive(Debug, Clone, Copy, PartialEq, Eq)]
pub enum AuthenticatorDataError {
    /// Shorter than the 32-byte hash plus the flags byte.
    TooShort,
    /// The first 32 bytes differ from SHA-256 of the relying-party id.
    InvalidRpIdHash,
    /// Bit 0 of the flags byte, "user present", is unset.
    UserPresenceNotSet,
    /// The declared credential-id length runs past the end of the blob.
    BadCredentialIdSize,
}

/// The credential-id length declared at offsets 53..55, big-endian.
pub open spec fn cred_id_len(ad: Seq<u8>) -> int {
    256 * (ad[53] as int) + (ad[54] as int)
}

/// Whether the blob's leading hash matches the relying-party id.
pub open spec fn rp_hash_ok(ad: Seq<u8>, rp_id: Seq<u8>) -> bool {
    ad.subrange(0, 32) == sha256_of(rp_id)
}

/// Whether the "user present" flag is set.
pub open spec fn user_present(ad: Seq<u8>) -> bool {
    ad[32] & 1 == 1
}

/// Whether the blob is structurally valid for the given relying-party id:
/// long enough, the right hash, user present, and any declared credential
/// id contained in the buffer.
pub open spec fn auth_data_valid(ad: Seq<u8>, rp_id: Seq<u8>) -> bool {
    &&& ad.len() >= 33
    &&& rp_hash_ok(ad, rp_id)
    &&& user_present(ad)
    &&& (ad.len() > 55 ==> 55 + cred_id_len(ad) <= ad.len())
}

/// The credential id a valid blob carries, if any: blobs of at most 55
/// bytes carry none.
pub open spec fn auth_data_cred_id(ad: Seq<u8>) -> Option<Seq<u8>> {
    if ad.len() > 55 {
        Some(ad.subrange(55, 55 + cred_id_len(ad)))
    } else {
        None
    }
}

/// Decode and validate an authenticator-data blob against the expected
/// relying-party id, returning the credential id when one is present.  The
/// hash comparison is constant-time: the rp-id hash is security-relevant.
pub fn parse_authenticator_data(ad: &[u8], rp_id: &[u8]) -> (r: Result<
    Option<Vec<u8>>,
    AuthenticatorDataError,
>)
    ensures
        r is Ok <==> auth_data_valid(ad@, rp_id@),
        match r {
            Ok(cred) => match cred {
                Some(id) => ad@.len() > 55 && Some(id@) == auth_data_cred_id(ad@),
                None => ad@.len() <= 55,
            },
            Err(e) => match e {
                AuthenticatorDataError::TooShort => ad@.len() < 33,
                AuthenticatorDataError::InvalidRpIdHash => ad@.len() >= 33 && !rp_hash_ok(
                    ad@,
                    rp_id@,
                ),
                AuthenticatorDataError::UserPresenceNotSet => ad@.len() >= 33 && rp_hash_ok(
                    ad@,
                    rp_id@,
                ) && !user_present(ad@),
                AuthenticatorDataError::BadCredentialIdSize => ad@.len() > 55 && rp_hash_ok(
                    ad@,
                    rp_id@,
                ) && user_present(ad@) && 55 + cred_id_len(ad@) > ad@.len(),
            },
        },
{
    if ad.len() < 33 {
        return Err(AuthenticatorDataError::TooShort);
    }
    let rp_hash = sha256(rp_id);
    let head = vstd::slice::slice_subrange(ad, 0, 32);
    if !ct_bytes_eq(rp_hash.as_slice(), head) {
        return Err(AuthenticatorDataError::InvalidRpIdHash);
    }
    if ad[32] & 1 != 1 {
        return Err(AuthenticatorDataError::UserPresenceNotSet);
    }
    if ad.len() > 55 {
        let declared: usize = 256 * (ad[53] as usize) + (ad[54] as usize);
        if ad.len() - 55 < declared {
            return Err(AuthenticatorDataError::BadCredentialIdSize);
        }
        let id = vstd::slice::slice_to_vec(vstd::slice::slice_subrange(ad, 55, 55 + declared));
        Ok(Some(id))
    } else {
        Ok(None)
    }
}

} // verus!
