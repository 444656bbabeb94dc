//! The passkey service: the four public operations (start/finish of
//! registration and of authentication) composed from the validators, the
//! verifier and the registry.
//!
//! Each flow is a two-step exchange whose intermediate state (the issued
//! challenge) is held by the caller, not by this service: the service is
//! stateless across the two calls except through the registry.
//!
//! Registration fails loudly, with a distinct error for each cause, because
//! it is performed by an already-authorized party.  Authentication fails
//! quietly: every failure collapses to plain `false`, so a caller learns
//! nothing about why an attempt was refused.

use vstd::prelude::*;

use crate::authenticator::{auth_data_cred_id, auth_data_valid, parse_authenticator_data};
use crate::client_data::{cd_challenge_bytes, cd_origin, client_data_valid, CollectedClientData};
use crate::crypto::{
    ecdsa_p256_verifies, ecdsa_p256_verify, p256_public_key_decodes, random_bytes_32, sha256,
    sha256_of, spki_p256_valid,
};
use crate::origin::{url_host, url_norm, url_normalize, url_ok};
use crate::registry::PasskeyRegistry;

verus! {

/// The ASCII bytes of `"webauthn.create"`, the `type` a registration
/// ceremony's client data must carry.
pub open spec fn webauthn_create() -> Seq<u8> {
    seq![119u8, 101, 98, 97, 117, 116, 104, 110, 46, 99, 114, 101, 97, 116, 101]
}

/// The ASCII bytes of `"webauthn.get"`, the `type` an authentication
/// ceremony's client data must carry.
pub open spec fn webauthn_get() -> Seq<u8> {
    seq![119u8, 101, 98, 97, 117, 116, 104, 110, 46, 103, 101, 116]
}

fn webauthn_create_bytes() -> (r: Vec<u8>)
    ensures
        r@ == webauthn_create(),
{
    let r: Vec<u8> = vec![119, 101, 98, 97, 117, 116, 104, 110, 46, 99, 114, 101, 97, 116, 101];
    proof {
        assert(r@ =~= webauthn_create());
    }
    r
}

fn webauthn_get_bytes() -> (r: Vec<u8>)
    ensures
        r@ == webauthn_get(),
{
    let r: Vec<u8> = vec![119, 101, 98, 97, 117, 116, 104, 110, 46, 103, 101, 116];
    proof {
        assert(r@ =~= webauthn_get());
    }
    r
}

/// Why a registration was refused.  Registration reports its causes
/// distinctly, unlike authentication.
#[derive(Debug, Clone, Copy, PartialEq, Eq)]
pub enum RegistrationError {
    /// The response's public key is not a DER-encoded P-256 key.
    InvalidPublicKey,
    /// The client data failed validation.
    InvalidClientData,
    /// The authenticator data failed validation or carried no credential id.
    InvalidAuthenticatorData,
    /// The credential id is already registered: a storage conflict.
    PasskeyIdConflict,
}

/// The challenge object a registration ceremony starts from.  It carries no
/// anti-replay nonce; the registered ids let the client platform avoid
/// re-registering an existing authenticator.
pub struct RegistrationChallenge {
    pub rp_id: Vec<u8>,
    pub user_id: Vec<u8>,
    pub username: String,
    pub passkey_ids: Vec<Vec<u8>>,
}

/// The client platform's answer to a registration challenge, binary fields
/// already decoded from their base64 wire form.
pub struct RegistrationResponse {
    pub client_data_json: Vec<u8>,
    pub authenticator_data: Vec<u8>,
    pub public_key: Vec<u8>,
}

/// The challenge object an authentication ceremony starts from.  The caller
/// must retain `challenge` until the matching finish call.
pub struct AuthenticationChallenge {
    pub rp_id: Vec<u8>,
    pub challenge: [u8; 32],
    pub passkey_ids: Vec<Vec<u8>>,
}

/// The client platform's answer to an authentication challenge, binary
/// fields already decoded from their base64 wire form.
pub struct AuthenticationResponse {
    pub raw_id: Vec<u8>,
    pub client_data_json: Vec<u8>,
    pub authenticator_data: Vec<u8>,
    pub signature: Vec<u8>,
}

/// The relying-party service: its id (normally the hostname), the expected
/// origin in normalized form, and the registry of credentials.
pub struct PasskeyService {
    pub rp_id: Vec<u8>,
    pub origin_norm: Vec<u8>,
    pub registry: PasskeyRegistry,
}

/// Whether the authenticator data is acceptable for registration: valid for
/// the relying party and actually carrying a credential id.
pub open spec fn reg_auth_data_ok(ad: Seq<u8>, rp_id: Seq<u8>) -> bool {
    auth_data_valid(ad, rp_id) && ad.len() > 55
}

/// The credential id a registration response carries (meaningful when
/// `reg_auth_data_ok` holds of its authenticator data).
pub open spec fn reg_cred_id(resp: RegistrationResponse) -> Seq<u8> {
    auth_data_cred_id(resp.authenticator_data@).unwrap()
}

/// Everything `finish_registration` requires of a response: a decodable
/// public key, valid client data of type `webauthn.create` (no challenge is
/// checked — registration carries no nonce), valid authenticator data with
/// a credential id, and a credential id not yet registered.
pub open spec fn registration_accepted(s: PasskeyService, resp: RegistrationResponse) -> bool {
    &&& spki_p256_valid(resp.public_key@)
    &&& client_data_valid(resp.client_data_json@, s.origin_norm@, webauthn_create(), None)
    &&& reg_auth_data_ok(resp.authenticator_data@, s.rp_id@)
    &&& s.registry.key_for(reg_cred_id(resp)) is None
}

/// Everything `finish_authentication` requires of a response: valid client
/// data of type `webauthn.get` carrying the expected challenge, valid
/// authenticator data, a registered credential id, and a signature by the
/// stored key over `authenticatorData || SHA-256(clientDataJSON)`.
pub open spec fn authentication_accepted(
    s: PasskeyService,
    resp: AuthenticationResponse,
    challenge: Seq<u8>,
) -> bool {
    &&& client_data_valid(resp.client_data_json@, s.origin_norm@, webauthn_get(), Some(challenge))
    &&& auth_data_valid(resp.authenticator_data@, s.rp_id@)
    &&& match s.registry.key_for(resp.raw_id@) {
        Some(pk) => ecdsa_p256_verifies(
            pk,
            resp.authenticator_data@ + sha256_of(resp.client_data_json@),
            resp.signature@,
        ),
        None => false,
    }
}

impl PasskeyService {
    /// Well-formedness: the registry's ids are unique.
    pub open spec fn wf(&self) -> bool {
        self.registry.wf()
    }

    /// Build a service from a base URL whose host becomes the relying-party
    /// id and whose normalized form becomes the expected origin.
    pub fn new(registry: PasskeyRegistry, base_url: &[u8]) -> (r: PasskeyService)
        requires
            registry.wf(),
            url_ok(base_url@),
        ensures
            r.wf(),
            r.registry == registry,
            r.rp_id@ == url_host(base_url@),
            r.origin_norm@ == url_norm(base_url@),
    {
        match url_normalize(base_url) {
            Some(p) => PasskeyService { rp_id: p.1, origin_norm: p.0, registry },
            None => vstd::pervasive::unreached(),
        }
    }

    /// Build a service from a base URL, refusing one that does not parse as
    /// an absolute URL with a host.
    pub fn try_new(registry: PasskeyRegistry, base_url: &[u8]) -> (r: Option<PasskeyService>)
        requires
            registry.wf(),
        ensures
            r is Some <==> url_ok(base_url@),
            r matches Some(s) ==> s.wf() && s.registry == registry && s.rp_id@ == url_host(
                base_url@,
            ) && s.origin_norm@ == url_norm(base_url@),
    {
        match url_normalize(base_url) {
            Some(_) => Some(PasskeyService::new(registry, base_url)),
            None => None,
        }
    }

    /// Whether any credential is registered: the bootstrap gate a caller
    /// uses to decide whether new registrations are still permitted.
    pub fn any_registered(&self) -> (r: bool)
        ensures
            r == (self.registry.ids().len() > 0),
    {
        self.registry.count() > 0
    }

    /// The registered credential ids, in insertion order.
    fn passkey_ids(&self) -> (r: Vec<Vec<u8>>)
        ensures
            r@.len() == self.registry.ids().len(),
            forall|i: int| 0 <= i < r@.len() ==> r@[i]@ == self.registry.ids()[i],
    {
        self.registry.list_ids()
    }

    /// Begin a registration ceremony: echo the caller's user and hand out
    /// the current ids.  No randomness is generated here.
    pub fn start_registration(&self, username: &str, user_id: &[u8]) -> (r: RegistrationChallenge)
        ensures
            r.rp_id@ == self.rp_id@,
            r.username@ == username@,
            r.user_id@ == user_id@,
            r.passkey_ids@.len() == self.registry.ids().len(),
            forall|i: int| 0 <= i < r.passkey_ids@.len() ==> r.passkey_ids@[i]@
                == self.registry.ids()[i],
    {
        RegistrationChallenge {
            rp_id: vstd::slice::slice_to_vec(self.rp_id.as_slice()),
            username: username.to_owned(),
            user_id: vstd::slice::slice_to_vec(user_id),
            passkey_ids: self.passkey_ids(),
        }
    }

    /// Finish a registration ceremony: decode the key, validate client and
    /// authenticator data, and store the new credential.  Each failure
    /// surfaces as its own error and leaves the registry unchanged; success
    /// registers exactly the carried credential id.
    pub fn finish_registration(&mut self, resp: RegistrationResponse) -> (r: Result<
        (),
        RegistrationError,
    >)
        requires
            old(self).wf(),
        ensures
            final(self).wf(),
            final(self).rp_id == old(self).rp_id,
            final(self).origin_norm == old(self).origin_norm,
            r is Ok <==> registration_accepted(*old(self), resp),
            match r {
                Ok(_) => {
                    &&& final(self).registry.ids() == old(self).registry.ids().push(
                        reg_cred_id(resp),
                    )
                    &&& final(self).registry.ids().len() == old(self).registry.ids().len() + 1
                    &&& final(self).registry.key_for(reg_cred_id(resp)) == Some(resp.public_key@)
                    &&& forall|other: Seq<u8>|
                        other != reg_cred_id(resp) ==> final(self).registry.key_for(other) == old(
                            self,
                        ).registry.key_for(other)
                },
                Err(e) => *final(self) == *old(self) && match e {
                    RegistrationError::InvalidPublicKey => !spki_p256_valid(resp.public_key@),
                    RegistrationError::InvalidClientData => spki_p256_valid(resp.public_key@)
                        && !client_data_valid(
                        resp.client_data_json@,
                        old(self).origin_norm@,
                        webauthn_create(),
                        None,
                    ),
                    RegistrationError::InvalidAuthenticatorData => spki_p256_valid(
                        resp.public_key@,
                    ) && client_data_valid(
                        resp.client_data_json@,
                        old(self).origin_norm@,
                        webauthn_create(),
                        None,
                    ) && !reg_auth_data_ok(resp.authenticator_data@, old(self).rp_id@),
                    RegistrationError::PasskeyIdConflict => spki_p256_valid(resp.public_key@)
                        && client_data_valid(
                        resp.client_data_json@,
                        old(self).origin_norm@,
                        webauthn_create(),
                        None,
                    ) && reg_auth_data_ok(resp.authenticator_data@, old(self).rp_id@) && old(
                        self,
                    ).registry.key_for(reg_cred_id(resp)) is Some,
                },
            },
    {
        if !p256_public_key_decodes(resp.public_key.as_slice()) {
            return Err(RegistrationError::InvalidPublicKey);
        }
        let action = webauthn_create_bytes();
        if !CollectedClientData::is_valid(
            resp.client_data_json.as_slice(),
            self.origin_norm.as_slice(),
            action.as_slice(),
            None,
        ) {
            return Err(RegistrationError::InvalidClientData);
        }
        let passkey_id = match parse_authenticator_data(
            resp.authenticator_data.as_slice(),
            self.rp_id.as_slice(),
        ) {
            Ok(Some(id)) => id,
            _ => {
                return Err(RegistrationError::InvalidAuthenticatorData);
            },
        };
        match self.registry.insert(passkey_id, resp.public_key) {
            Ok(_) => Ok(()),
            Err(_) => Err(RegistrationError::PasskeyIdConflict),
        }
    }

    /// Begin an authentication ceremony: hand out the current ids and a
    /// fresh 32-byte random challenge, which the caller must retain.
    pub fn start_authentication(&self) -> (r: AuthenticationChallenge)
        ensures
            r.rp_id@ == self.rp_id@,
            r.passkey_ids@.len() == self.registry.ids().len(),
            forall|i: int| 0 <= i < r.passkey_ids@.len() ==> r.passkey_ids@[i]@
                == self.registry.ids()[i],
    {
        AuthenticationChallenge {
            rp_id: vstd::slice::slice_to_vec(self.rp_id.as_slice()),
            challenge: random_bytes_32(),
            passkey_ids: self.passkey_ids(),
        }
    }

    /// Finish an authentication ceremony.  True exactly when the client
    /// data validates with the expected challenge, the authenticator data
    /// validates, the credential is registered, and the signature verifies
    /// over `authenticatorData || SHA-256(clientDataJSON)`.  Every failure
    /// is the same plain `false`.
    pub fn finish_authentication(&self, resp: AuthenticationResponse, challenge: [u8; 32]) -> (r:
        bool)
        ensures
            r == authentication_accepted(*self, resp, challenge@),
    {
        let action = webauthn_get_bytes();
        if !CollectedClientData::is_valid(
            resp.client_data_json.as_slice(),
            self.origin_norm.as_slice(),
            action.as_slice(),
            Some(challenge.as_slice()),
        ) {
            return false;
        }
        match parse_authenticator_data(
            resp.authenticator_data.as_slice(),
            self.rp_id.as_slice(),
        ) {
            Err(_) => {
                return false;
            },
            Ok(_) => {},
        }
        let stored_key = match self.registry.lookup(resp.raw_id.as_slice()) {
            Some(pk) => pk,
            None => {
                return false;
            },
        };
        let mut signed = vstd::slice::slice_to_vec(resp.authenticator_data.as_slice());
        let mut digest = sha256(resp.client_data_json.as_slice());
        signed.append(&mut digest);
        ecdsa_p256_verify(
            stored_key.as_slice(),
            signed.as_slice(),
            resp.signature.as_slice(),
        )
    }
}

/// An authentication response whose client data reports any origin other
/// than the configured one is refused, whatever else it carries.
pub proof fn lemma_origin_mismatch_rejected(
    s: PasskeyService,
    resp: AuthenticationResponse,
    challenge: Seq<u8>,
)
    requires
        !(url_ok(cd_origin(resp.client_data_json@)) && url_norm(cd_origin(resp.client_data_json@))
            == s.origin_norm@),
    ensures
        !authentication_accepted(s, resp, challenge),
{
}

/// A stale challenge is refused: when the response does not carry exactly
/// the challenge the caller expects — in particular when it carries one
/// consumed in an earlier ceremony — authentication fails.
pub proof fn lemma_challenge_mismatch_rejected(
    s: PasskeyService,
    resp: AuthenticationResponse,
    challenge: Seq<u8>,
)
    requires
        cd_challenge_bytes(resp.client_data_json@) != Some(challenge),
    ensures
        !authentication_accepted(s, resp, challenge),
{
}

/// A response referencing a credential id that was never registered is
/// refused, whatever else it carries.
pub proof fn lemma_unknown_credential_rejected(
    s: PasskeyService,
    resp: AuthenticationResponse,
    challenge: Seq<u8>,
)
    requires
        s.registry.key_for(resp.raw_id@) is None,
    ensures
        !authentication_accepted(s, resp, challenge),
{
}

/// The honest path succeeds: matching client data, valid authenticator
/// data, a registered credential and a verifying signature over the signed
/// material are together enough for authentication to be accepted.
pub proof fn lemma_valid_assertion_accepted(
    s: PasskeyService,
    resp: AuthenticationResponse,
    challenge: Seq<u8>,
    pk: Seq<u8>,
)
    requires
        client_data_valid(resp.client_data_json@, s.origin_norm@, webauthn_get(), Some(challenge)),
        auth_data_valid(resp.authenticator_data@, s.rp_id@),
        s.registry.key_for(resp.raw_id@) == Some(pk),
        ecdsa_p256_verifies(
            pk,
            resp.authenticator_data@ + sha256_of(resp.client_data_json@),
            resp.signature@,
        ),
    ensures
        authentication_accepted(s, resp, challenge),
{
}

} // verus!
