//! The client-data validator: the JSON structure the client platform
//! produces around a ceremony, of the shape
//! `{ "challenge": base64?, "origin": url, "type": string, "crossOrigin": bool? }`.
//!
//! Every check must pass for the document to be accepted, and the caller
//! learns only the single boolean: which sub-check failed is never revealed.

use vstd::prelude::*;

use crate::base64::{base64_decode, spec_decode_adapter};
use crate::bytes::bytes_eq;
use crate::crypto::ct_bytes_eq;
use crate::origin::{url_norm, url_normalize, url_ok};

verus! {

/// Whether the bytes parse as a client-data JSON document: an object whose
/// `type` and `origin` members are strings, whose optional `challenge`
/// member is a string and whose optional `crossOrigin` member is a boolean.
/// The parser lives outside this crate, so this is only named here, as are
/// the members below.
pub uninterp spec fn cd_parses(json: Seq<u8>) -> bool;

/// The `type` member; meaningful only when `cd_parses(json)` holds.
pub uninterp spec fn cd_type(json: Seq<u8>) -> Seq<u8>;

/// The `origin` member; meaningful only when `cd_parses(json)` holds.
pub uninterp spec fn cd_origin(json: Seq<u8>) -> Seq<u8>;

/// The `challenge` member, still base64 text, `None` when absent or null;
/// meaningful only when `cd_parses(json)` holds.
pub uninterp spec fn cd_challenge(json: Seq<u8>) -> Option<Seq<u8>>;

/// The `crossOrigin` member, `None` when absent or null; meaningful only
/// when `cd_parses(json)` holds.
pub uninterp spec fn cd_cross_origin(json: Seq<u8>) -> Option<bool>;

/// A parsed client-data document, with the challenge still in its base64
/// text form.
pub struct CollectedClientData {
    pub type_: Vec<u8>,
    pub origin: Vec<u8>,
    pub challenge: Option<Vec<u8>>,
    pub cross_origin: Option<bool>,
}

/// Relies on serde_json: whether and how a JSON document parses depends on
/// the bytes alone.  Members other than the four named ones are ignored;
/// a member of the wrong JSON type fails the parse; a member that occurs
/// twice keeps its last occurrence, as serde_json's document model does.
#[verifier::external_body]
fn parse_client_data(json: &[u8]) -> (r: Option<CollectedClientData>)
    ensures
        r is Some <==> cd_parses(json@),
        r matches Some(c) ==> {
            &&& c.type_@ == cd_type(json@)
            &&& c.origin@ == cd_origin(json@)
            &&& match c.challenge {
                Some(t) => cd_challenge(json@) == Some(t@),
                None => cd_challenge(json@) is None,
            }
            &&& c.cross_origin == cd_cross_origin(json@)
        },
{
    let document: serde_json::Value = serde_json::from_slice(json).ok()?;
    let type_ = document.get("type")?.as_str()?.as_bytes().to_vec();
    let origin = document.get("origin")?.as_str()?.as_bytes().to_vec();
    let challenge = match document.get("challenge") {
        None | Some(serde_json::Value::Null) => None,
        Some(c) => Some(c.as_str()?.as_bytes().to_vec()),
    };
    let cross_origin = match document.get("crossOrigin") {
        None | Some(serde_json::Value::Null) => None,
        Some(c) => Some(c.as_bool()?),
    };
    Some(CollectedClientData { type_, origin, challenge, cross_origin })
}

/// The challenge bytes the client data carries: the decoded base64 text, or
/// `None` when the member is absent.  A challenge that fails both base64
/// variants poisons the whole document (`challenge_well_formed`), just as a
/// member of the wrong JSON type does.
pub open spec fn cd_challenge_bytes(json: Seq<u8>) -> Option<Seq<u8>> {
    match cd_challenge(json) {
        Some(text) => spec_decode_adapter(text),
        None => None,
    }
}

/// Whether the `challenge` member, if present, is decodable base64 text.
pub open spec fn challenge_well_formed(json: Seq<u8>) -> bool {
    match cd_challenge(json) {
        Some(text) => spec_decode_adapter(text) is Some,
        None => true,
    }
}

/// Everything the validator checks: the document parses, its challenge (if
/// any) decodes, `type` equals the expected value exactly, `crossOrigin` is
/// absent or false, `origin` parses as a URL equal to the expected origin
/// (given by its normalized serialization), and, when a challenge is
/// expected, the carried challenge equals it — a document that carries no
/// challenge mismatches any expected one.
pub open spec fn client_data_valid(
    json: Seq<u8>,
    origin_norm: Seq<u8>,
    action: Seq<u8>,
    challenge: Option<Seq<u8>>,
) -> bool {
    &&& cd_parses(json)
    &&& challenge_well_formed(json)
    &&& cd_type(json) == action
    &&& cd_cross_origin(json) != Some(true)
    &&& url_ok(cd_origin(json))
    &&& url_norm(cd_origin(json)) == origin_norm
    &&& match challenge {
        None => true,
        Some(expected) => match cd_challenge_bytes(json) {
            Some(carried) => carried == expected,
            None => false,
        },
    }
}

impl CollectedClientData {
    /// Validate raw client-data JSON against the expected origin (as its
    /// normalized serialization), the expected `type`, and, when one is
    /// supplied, the expected challenge, compared in constant time.
    pub fn is_valid(json: &[u8], origin_norm: &[u8], action: &[u8], challenge: Option<&[u8]>) -> (r:
        bool)
        ensures
            r == client_data_valid(
                json@,
                origin_norm@,
                action@,
                match challenge {
                    Some(c) => Some(c@),
                    None => None::<Seq<u8>>,
                },
            ),
    {
        let parsed = match parse_client_data(json) {
            Some(c) => c,
            None => {
                return false;
            },
        };
        if !bytes_eq(parsed.type_.as_slice(), action) {
            return false;
        }
        match parsed.cross_origin {
            Some(true) => {
                return false;
            },
            _ => {},
        }
        let norm = match url_normalize(parsed.origin.as_slice()) {
            Some(p) => p.0,
            None => {
                return false;
            },
        };
        if !bytes_eq(norm.as_slice(), origin_norm) {
            return false;
        }
        let carried: Option<Vec<u8>> = match parsed.challenge {
            Some(text) => match base64_decode(text.as_slice()) {
                Some(decoded) => Some(decoded),
                None => {
                    return false;
                },
            },
            None => None,
        };
        match challenge {
            None => true,
            Some(expected) => match carried {
                Some(decoded) => ct_bytes_eq(decoded.as_slice(), expected),
                None => false,
            },
        }
    }
}

} // verus!
