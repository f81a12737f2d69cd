//! The token request of the pre-authorized code flow: the request body sent
//! to the issuer's `token_endpoint` and the reading of its response.

use vstd::prelude::*;

use crate::text::is_success_status;

verus! {

/// The grant type of the pre-authorized code flow.
pub const PRE_AUTHORIZED_GRANT_TYPE: &'static str =
    "urn:ietf:params:oauth:grant-type:pre-authorized_code";

/// The issuer's answer to a token request: an access token and the nonce the
/// credential proof must sign.
#[derive(Debug)]
pub struct TokenResponse {
    pub access_token: String,
    pub c_nonce: String,
    pub token_type: String,
    pub expires_in: Option<u64>,
}

/// Why no token was obtained.
#[derive(Debug)]
pub enum Oid4vciTokenError {
    /// The request failed or its body was not text.
    Http(String),
    /// The issuer answered with a non-2xx status.
    Status { status: u16, body: String },
    /// The body was not a token response.
    Decode(String),
}

/// The body of a token request: `grant_type` and `pre-authorized_code`.
#[derive(Debug)]
pub struct TokenRequest {
    pub grant_type: String,
    pub pre_authorized_code: String,
}

/// The token request that exchanges `pre_authorized_code`.
pub fn token_request(pre_authorized_code: &str) -> (r: TokenRequest)
    ensures
        r.grant_type@ == PRE_AUTHORIZED_GRANT_TYPE@,
        r.pre_authorized_code@ == pre_authorized_code@,
{
    TokenRequest {
        grant_type: String::from_str(PRE_AUTHORIZED_GRANT_TYPE),
        pre_authorized_code: String::from_str(pre_authorized_code),
    }
}

/// The token text of a response: the body of a 2xx response, a `Status`
/// error carrying status and body otherwise.
pub fn token_response_text(status: u16, body: String) -> (r: Result<String, Oid4vciTokenError>)
    ensures
        match r {
            Ok(text) => is_success_status(status) && text@ == body@,
            Err(Oid4vciTokenError::Status { status: s, body: b }) => !is_success_status(status)
                && s == status && b@ == body@,
            Err(_) => false,
        },
{
    if 200 <= status && status <= 299 {
        Ok(body)
    } else {
        Err(Oid4vciTokenError::Status { status, body })
    }
}

} // verus!
