//! Decision rules of the two HTTP handlers.
//!
//! The handlers themselves do I/O (a database insert or lookup, request
//! parsing, response formatting); everything they decide or compute is
//! here, as pure functions over plain values. On a shorten request, the
//! URL is validated and the response link is composed from the resolved
//! base URL and the encoded identifier. On a redirect request, the
//! trailing path segment is decoded before any lookup, and the lookup's
//! outcome is turned into a redirect target or a miss.

use crate::codec::{all_in_alphabet, base62_decode, base62_encode, code_value, spec_encode};
use vstd::prelude::*;

verus! {

/// A shorten request's body: the long URL to store.
pub struct ShortenRequest {
    pub url: String,
}

/// A shorten response's body: the absolute short link.
pub struct UrlResponse {
    pub short_url: String,
}

/// The failures the handlers distinguish.
#[derive(Clone, Copy, Debug, PartialEq, Eq, Structural)]
pub enum ApiError {
    /// The shorten request carried an empty URL.
    EmptyUrl,
    /// The redirect code holds a character outside the alphabet, is
    /// empty, or denotes a value too large for an identifier.
    InvalidCode,
    /// No link is stored under the decoded identifier.
    NotFound,
}

/// Accepts a shorten request exactly when its URL is non-empty.
pub fn check_shorten_request(req: &ShortenRequest) -> (r: Result<(), ApiError>)
    ensures
        r is Ok <==> req.url@.len() > 0,
        r is Err ==> r->Err_0 == ApiError::EmptyUrl,
{
    if req.url.as_str().is_empty() {
        Err(ApiError::EmptyUrl)
    } else {
        Ok(())
    }
}

/// Composes the short link for a stored identifier: the resolved base
/// URL, a slash, and the identifier's code.
pub fn build_url_response(base_url: &String, id: u64) -> (r: UrlResponse)
    ensures
        r.short_url@ == base_url@ + seq!['/'] + spec_encode(id as nat),
{
    let code = base62_encode(id);
    let mut s = base_url.clone();
    s.append("/");
    s.append(code.as_str());
    proof {
        reveal_strlit("/");
        assert("/"@ =~= seq!['/']);
        assert(s@ =~= base_url@ + seq!['/'] + spec_encode(id as nat));
    }
    UrlResponse { short_url: s }
}

/// Decodes a redirect request's trailing path segment, before any
/// lookup happens: an undecodable segment is rejected as an invalid
/// code.
pub fn parse_redirect_code(code: &str) -> (r: Result<u64, ApiError>)
    ensures
        r is Ok <==> code@.len() > 0 && all_in_alphabet(code@) && code_value(code@) <= u64::MAX,
        r matches Ok(id) ==> id == code_value(code@),
        r is Err ==> r->Err_0 == ApiError::InvalidCode,
{
    match base62_decode(code) {
        Some(id) => Ok(id),
        None => Err(ApiError::InvalidCode),
    }
}

/// Turns the store's answer for a decoded identifier into the redirect
/// target, or a miss when nothing is stored under it.
pub fn redirect_target(stored: Option<String>) -> (r: Result<String, ApiError>)
    ensures
        stored matches Some(url) ==> r matches Ok(t) && t == url,
        stored is None ==> r is Err && r->Err_0 == ApiError::NotFound,
{
    match stored {
        Some(url) => Ok(url),
        None => Err(ApiError::NotFound),
    }
}

} // verus!
