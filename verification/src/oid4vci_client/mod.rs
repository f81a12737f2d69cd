//! Client side of the OID4VCI pre-authorized code flow: issuer metadata,
//! the token exchange, the choice of credential flow and the decoding of the
//! issued credentials.

pub mod credential;
pub mod metadata;
pub mod token;

use vstd::prelude::*;

use crate::oid4vci_client::credential::CredentialFlowError;
use crate::oid4vci_client::metadata::{
    configuration_for, CredentialIssuerMetadata, MetadataError,
};
use crate::text::{has_prefix, starts_with};

verus! {

/// The credential flow a configuration id routes to.
#[derive(Debug, Clone, Copy, PartialEq, Eq, Structural)]
pub enum CredentialFlowKind {
    /// The legacy birth flow: a simple `{format, proof}` request.
    Birth,
    /// The digital-passport flow: holder binding and detached proof.
    DigitalPassport,
}

/// Configuration ids starting with `digital_passport` take the
/// digital-passport flow.
pub open spec fn spec_is_passport_flow(config_id: Seq<char>) -> bool {
    has_prefix(config_id, "digital_passport"@)
}

/// Whether `config_id` routes to the digital-passport flow.
pub fn is_passport_flow(config_id: &str) -> (r: bool)
    ensures
        r == spec_is_passport_flow(config_id@),
{
    starts_with(config_id, "digital_passport")
}

/// Why an issuance could not be completed.
#[derive(Debug)]
pub enum IssuanceFlowError {
    /// The credential offer could not be parsed.
    Parse(String),
    /// The issuer metadata could not be had.
    Metadata(MetadataError),
    /// The offer names no credential configuration.
    MissingConfigurationId,
    /// The offer's configuration is not among the supported ones.
    UnknownConfigurationId(String),
    /// The digital-passport flow needs the JS bridge, which is absent.
    JsBridgeUnavailable(String),
    /// The credential flow failed.
    Flow(CredentialFlowError),
}

/// What the token and credential requests of an issuance are made with.
#[derive(Debug)]
pub struct IssuancePlan {
    pub flow: CredentialFlowKind,
    pub configuration_id: String,
    pub format: String,
    pub credential_issuer: String,
    pub token_endpoint: String,
    pub credential_endpoint: String,
}

/// The message of a passport issuance without the JS bridge.
pub const JS_BRIDGE_REQUIRED: &'static str =
    "digital-passport flow requires the JS bridge but it was not available";

/// The issuance an offer asks for: its first configuration id is looked up in
/// the issuer metadata and decides the flow; endpoints come from the metadata.
pub fn plan_issuance(
    configuration_ids: &Vec<String>,
    meta: &CredentialIssuerMetadata,
    js_bridge_available: bool,
) -> (r: Result<IssuancePlan, IssuanceFlowError>)
    ensures
        configuration_ids@.len() == 0 ==> r matches Err(IssuanceFlowError::MissingConfigurationId),
        configuration_ids@.len() > 0 ==> {
            let id = configuration_ids@[0]@;
            match configuration_for(meta.credential_configurations_supported@, id) {
                None => r matches Err(IssuanceFlowError::UnknownConfigurationId(e)) && e@ == id,
                Some(c) => if spec_is_passport_flow(id) && !js_bridge_available {
                    r matches Err(IssuanceFlowError::JsBridgeUnavailable(m)) && m@
                        == JS_BRIDGE_REQUIRED@
                } else {
                    r matches Ok(p) && p.flow == (if spec_is_passport_flow(id) {
                        CredentialFlowKind::DigitalPassport
                    } else {
                        CredentialFlowKind::Birth
                    }) && p.configuration_id@ == id && p.format@ == c.format@
                        && p.credential_issuer@ == meta.credential_issuer@ && p.token_endpoint@
                        == meta.token_endpoint@ && p.credential_endpoint@
                        == meta.credential_endpoint@
                },
            }
        },
{
    if configuration_ids.len() == 0 {
        return Err(IssuanceFlowError::MissingConfigurationId);
    }
    let id = &configuration_ids[0];
    let config = match meta.configuration(id.as_str()) {
        Some(c) => c,
        None => return Err(IssuanceFlowError::UnknownConfigurationId(id.clone())),
    };
    let passport = is_passport_flow(id.as_str());
    if passport && !js_bridge_available {
        return Err(IssuanceFlowError::JsBridgeUnavailable(String::from_str(JS_BRIDGE_REQUIRED)));
    }
    Ok(
        IssuancePlan {
            flow: if passport {
                CredentialFlowKind::DigitalPassport
            } else {
                CredentialFlowKind::Birth
            },
            configuration_id: id.clone(),
            format: config.format.clone(),
            credential_issuer: meta.credential_issuer.clone(),
            token_endpoint: meta.token_endpoint.clone(),
            credential_endpoint: meta.credential_endpoint.clone(),
        },
    )
}

} // verus!
