//! The one request of a cycle: where it goes, how it is authorised, what it
//! carries, and which responses count as a success.

use vstd::prelude::*;
use vstd::string::*;
use crate::records::{BundleView, SyncBundle};

verus! {

/// The address of the remote service's exchange endpoint.
pub open spec fn exchange_endpoint() -> Seq<char> {
    "http://localhost:8080/api/sync/exchange"@
}

/// The value of the `Authorization` header for the credential `token`.
pub open spec fn bearer_of(token: Seq<char>) -> Seq<char> {
    "Bearer "@ + token
}

/// A status from 200 to 299.
pub open spec fn is_success(status: u16) -> bool {
    200 <= status <= 299
}

/// The view of an `ExchangeRequest`.
pub struct RequestView {
    pub url: Seq<char>,
    pub authorization: Seq<char>,
    pub body: BundleView,
}

/// The request of a cycle: a POST to `url` with the header `Authorization`
/// set to `authorization` and `body` as its JSON body.
#[derive(Debug, PartialEq, Eq)]
pub struct ExchangeRequest {
    pub url: String,
    pub authorization: String,
    pub body: SyncBundle,
}

impl View for ExchangeRequest {
    type V = RequestView;

    open spec fn view(&self) -> RequestView {
        RequestView { url: self.url@, authorization: self.authorization@, body: self.body@ }
    }
}

/// The request that carries `bundle` for the credential `token`.
pub open spec fn request_of(bundle: BundleView, token: Seq<char>) -> RequestView {
    RequestView { url: exchange_endpoint(), authorization: bearer_of(token), body: bundle }
}

/// The value of the `Authorization` header for the credential `token`:
/// `Bearer `, then the token.
pub fn bearer(token: &str) -> (r: String)
    ensures
        r@ == bearer_of(token@),
{
    let mut out = String::from_str("Bearer ");
    out.append(token);
    out
}

/// Whether a response with this status is a success.
pub fn status_is_success(status: u16) -> (r: bool)
    ensures
        r == is_success(status),
{
    200 <= status && status <= 299
}

/// Frames the request that carries `bundle` for the credential `token`.
pub fn frame_request(bundle: SyncBundle, token: &str) -> (r: ExchangeRequest)
    ensures
        r@ == request_of(bundle@, token@),
{
    ExchangeRequest {
        url: String::from_str("http://localhost:8080/api/sync/exchange"),
        authorization: bearer(token),
        body: bundle,
    }
}

} // verus!
