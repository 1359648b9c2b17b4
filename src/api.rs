//! The REST side: the authorization header, the gateway address, and the
//! reading of responses.
use vstd::prelude::*;
use vstd::string::StringSliceAdditionalSpecFns;

verus! {

/// The prefix of a bot's authorization header.
pub const BOT_AUTH_HEADER_PREFIX: &'static str = "Bot ";

/// The query that selects the protocol version and encoding of the gateway.
pub const GATEWAY_PARAMETERS: &'static str = "?v=6&encoding=json";

/// Whether an HTTP status is a success (2xx).
pub open spec fn is_success(status: u16) -> bool {
    200 <= status <= 299
}

/// The value of the authorization header for a bot token.
pub fn auth_header(token: &str) -> (r: Vec<u8>)
    ensures
        r@ == BOT_AUTH_HEADER_PREFIX.spec_bytes() + token.spec_bytes(),
{
    let mut r = vstd::slice::slice_to_vec(BOT_AUTH_HEADER_PREFIX.as_bytes());
    let mut t = vstd::slice::slice_to_vec(token.as_bytes());
    r.append(&mut t);
    r
}

/// The gateway address with the protocol parameters appended.
pub fn gateway_url(url: &str) -> (r: Vec<u8>)
    ensures
        r@ == url.spec_bytes() + GATEWAY_PARAMETERS.spec_bytes(),
{
    let mut r = vstd::slice::slice_to_vec(url.as_bytes());
    let mut p = vstd::slice::slice_to_vec(GATEWAY_PARAMETERS.as_bytes());
    r.append(&mut p);
    r
}

/// A response of the REST API: its body on success; otherwise the body as
/// the payload of the failure.
pub fn success_body(status: u16, body: Vec<u8>) -> (r: Result<Vec<u8>, Vec<u8>>)
    ensures
        is_success(status) ==> r == Ok::<Vec<u8>, Vec<u8>>(body),
        !is_success(status) ==> r == Err::<Vec<u8>, Vec<u8>>(body),
{
    if 200 <= status && status <= 299 {
        Ok(body)
    } else {
        Err(body)
    }
}

} // verus!
