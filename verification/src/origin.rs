//! Origin comparison through the URL parser.
//!
//! The configured origin and the origin reported in the client data are
//! compared as parsed URLs, not as raw text: the parser normalizes case,
//! default ports and trailing slashes, and two URLs are equal exactly when
//! their normalized serializations are equal.

use vstd::prelude::*;

verus! {

/// Whether the bytes are UTF-8 text that parses as an absolute URL with a
/// host.  The parser lives outside this crate, so this is only named here.
pub uninterp spec fn url_ok(s: Seq<u8>) -> bool;

/// The normalized serialization of the URL parsed from `s`; meaningful only
/// when `url_ok(s)` holds.  Two URLs are equal exactly when these are equal.
pub uninterp spec fn url_norm(s: Seq<u8>) -> Seq<u8>;

/// The host component of the URL parsed from `s`; meaningful only when
/// `url_ok(s)` holds.
pub uninterp spec fn url_host(s: Seq<u8>) -> Seq<u8>;

/// Relies on url's Url::parse, Url::as_str and Url::host_str: parsing
/// depends on the input alone, `as_str` is the normalized serialization
/// (the very string Url's own equality compares), and `host_str` is the
/// host component.
#[verifier::external_body]
pub fn url_normalize(s: &[u8]) -> (r: Option<(Vec<u8>, Vec<u8>)>)
    ensures
        r is Some <==> url_ok(s@),
        r matches Some(p) ==> p.0@ == url_norm(s@) && p.1@ == url_host(s@),
{
    let text = core::str::from_utf8(s).ok()?;
    let parsed = url::Url::parse(text).ok()?;
    let host = parsed.host_str()?.as_bytes().to_vec();
    Some((parsed.as_str().as_bytes().to_vec(), host))
}

} // verus!
