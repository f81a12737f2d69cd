//! The two credential families: birth (legacy Compact VC) and digital
//! passport (Compact VC with holder binding and detached proof).

pub mod birth;
pub mod digital_passport;

use vstd::prelude::*;

use crate::oid4vci_client::token::Oid4vciTokenError;
use crate::text::is_success_status;

verus! {

/// Errors shared by both credential flows.
#[derive(Debug)]
pub enum CredentialFlowError {
    /// The request failed or its body was not text.
    Http(String),
    /// The credential endpoint answered with a non-2xx status.
    Status { status: u16, body: String },
    /// The response was not a credential response.
    Decode(String),
    /// A base64 field did not decode.
    Base64(base64::DecodeError),
    /// The token exchange failed.
    Token(Oid4vciTokenError),
    /// The proof JWS could not be built.
    Proof(String),
    /// The credential store refused the credential.
    Store(String),
    /// The JS bridge failed.
    JsBridge(String),
    /// A key was missing or malformed in the secret store.
    SecretStore(String),
}

/// The credential text of a response: the body of a 2xx response, a `Status`
/// error carrying status and body otherwise.
pub fn credential_response_text(status: u16, body: String) -> (r: Result<String, CredentialFlowError>)
    ensures
        match r {
            Ok(text) => is_success_status(status) && text@ == body@,
            Err(CredentialFlowError::Status { status: s, body: b }) => !is_success_status(status)
                && s == status && b@ == body@,
            Err(_) => false,
        },
{
    if 200 <= status && status <= 299 {
        Ok(body)
    } else {
        Err(CredentialFlowError::Status { status, body })
    }
}

/// The proof object of a credential request: a JWT proof.
#[derive(Debug)]
pub struct JwtProof {
    pub proof_type: String,
    pub jwt: String,
}

/// The JWT proof object carrying `jwt`.
pub fn jwt_proof(jwt: &str) -> (r: JwtProof)
    ensures
        r.proof_type@ == "jwt"@,
        r.jwt@ == jwt@,
{
    JwtProof { proof_type: String::from_str("jwt"), jwt: String::from_str(jwt) }
}

} // verus!
