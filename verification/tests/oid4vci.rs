use wallet_core::oid4vci_client::credential::{credential_response_text, jwt_proof, CredentialFlowError};
use wallet_core::oid4vci_client::metadata::{
    metadata_response_text, metadata_url, CredentialConfiguration, CredentialIssuerMetadata,
    MetadataError, ProofTypeMetadata,
};
use wallet_core::oid4vci_client::token::{
    token_request, token_response_text, Oid4vciTokenError, PRE_AUTHORIZED_GRANT_TYPE,
};
use wallet_core::oid4vci_client::{
    is_passport_flow, plan_issuance, CredentialFlowKind, IssuanceFlowError, JS_BRIDGE_REQUIRED,
};

fn configuration(format: &str) -> CredentialConfiguration {
    CredentialConfiguration {
        format: format.into(),
        cryptographic_binding_methods_supported: vec!["did:midnight".into()],
        proof_types_supported: vec![(
            "jwt".into(),
            ProofTypeMetadata { proof_signing_alg_values_supported: vec!["EdDSA".into()] },
        )],
    }
}

fn metadata(issuer: &str, configs: Vec<(String, CredentialConfiguration)>) -> CredentialIssuerMetadata {
    CredentialIssuerMetadata {
        credential_issuer: issuer.into(),
        token_endpoint: format!("{issuer}/token"),
        credential_endpoint: format!("{issuer}/credential"),
        credential_configurations_supported: configs,
    }
}

#[test]
fn is_passport_flow_detects_digital_passport_prefix() {
    assert!(is_passport_flow("digital_passport_v1"));
    assert!(is_passport_flow("digital_passport"));
    assert!(!is_passport_flow("birth"));
    assert!(!is_passport_flow("something_else"));
}

#[test]
fn is_passport_flow_needs_the_prefix_at_the_start() {
    assert!(!is_passport_flow("x_digital_passport"));
    assert!(!is_passport_flow("digital_passpor"));
    assert!(!is_passport_flow(""));
}

#[test]
fn fetch_metadata_handles_trailing_slash_on_issuer() {
    assert_eq!(
        metadata_url("https://issuer.local/"),
        "https://issuer.local/.well-known/openid-credential-issuer"
    );
}

#[test]
fn metadata_url_values() {
    assert_eq!(
        metadata_url("https://mock-issuer.local"),
        "https://mock-issuer.local/.well-known/openid-credential-issuer"
    );
    assert_eq!(
        metadata_url("https://issuer.local///"),
        "https://issuer.local/.well-known/openid-credential-issuer"
    );
    assert_eq!(metadata_url(""), "/.well-known/openid-credential-issuer");
    assert_eq!(metadata_url("/"), "/.well-known/openid-credential-issuer");
}

#[test]
fn fetch_metadata_surfaces_non_2xx() {
    match metadata_response_text(404, "not found".into()) {
        Err(MetadataError::Status { status, body }) => {
            assert_eq!(status, 404);
            assert_eq!(body, "not found");
        }
        other => panic!("expected Status error, got {other:?}"),
    }
}

#[test]
fn metadata_response_text_passes_2xx_body() {
    assert_eq!(metadata_response_text(200, "{}".into()).unwrap(), "{}");
    assert_eq!(metadata_response_text(299, "x".into()).unwrap(), "x");
    assert!(matches!(metadata_response_text(300, "x".into()), Err(MetadataError::Status { status: 300, .. })));
    assert!(matches!(metadata_response_text(199, "x".into()), Err(MetadataError::Status { status: 199, .. })));
}

#[test]
fn request_token_surfaces_400_with_body() {
    match token_response_text(400, "invalid_grant".into()) {
        Err(Oid4vciTokenError::Status { status, body }) => {
            assert_eq!(status, 400);
            assert_eq!(body, "invalid_grant");
        }
        other => panic!("expected 400 Status, got {other:?}"),
    }
}

#[test]
fn token_response_text_passes_2xx_body() {
    assert_eq!(token_response_text(201, "AT".into()).unwrap(), "AT");
}

#[test]
fn token_request_carries_grant_type_and_code() {
    let req = token_request("CODE-1");
    assert_eq!(req.grant_type, "urn:ietf:params:oauth:grant-type:pre-authorized_code");
    assert_eq!(req.grant_type, PRE_AUTHORIZED_GRANT_TYPE);
    assert_eq!(req.pre_authorized_code, "CODE-1");
}

#[test]
fn credential_response_text_statuses() {
    assert_eq!(credential_response_text(200, "{}".into()).unwrap(), "{}");
    match credential_response_text(500, "boom".into()) {
        Err(CredentialFlowError::Status { status, body }) => {
            assert_eq!(status, 500);
            assert_eq!(body, "boom");
        }
        other => panic!("expected Status error, got {other:?}"),
    }
}

#[test]
fn jwt_proof_object() {
    let p = jwt_proof("a.b.c");
    assert_eq!(p.proof_type, "jwt");
    assert_eq!(p.jwt, "a.b.c");
}

#[test]
fn run_issuance_birth_happy_path() {
    let meta = metadata("https://issuer.local", vec![("birth".into(), configuration("midnight_compact_vc"))]);
    let plan = plan_issuance(&vec!["birth".to_string()], &meta, false).unwrap();
    assert_eq!(plan.flow, CredentialFlowKind::Birth);
    assert_eq!(plan.configuration_id, "birth");
    assert_eq!(plan.format, "midnight_compact_vc");
    assert_eq!(plan.credential_issuer, "https://issuer.local");
    assert_eq!(plan.token_endpoint, "https://issuer.local/token");
    assert_eq!(plan.credential_endpoint, "https://issuer.local/credential");
}

#[test]
fn run_issuance_rejects_unknown_configuration_id() {
    let meta = metadata("https://issuer.local", vec![]);
    match plan_issuance(&vec!["nonexistent".to_string()], &meta, true) {
        Err(IssuanceFlowError::UnknownConfigurationId(id)) => assert_eq!(id, "nonexistent"),
        other => panic!("expected UnknownConfigurationId, got {other:?}"),
    }
}

#[test]
fn run_issuance_passport_requires_js_bridge() {
    let meta = metadata(
        "https://passport-issuer.local",
        vec![("digital_passport_v1".into(), configuration("midnight_compact_vc"))],
    );
    match plan_issuance(&vec!["digital_passport_v1".to_string()], &meta, false) {
        Err(IssuanceFlowError::JsBridgeUnavailable(msg)) => {
            assert!(
                msg.contains("JS bridge") || msg.contains("digital-passport"),
                "error message should mention JS bridge or digital-passport: {msg}"
            );
            assert_eq!(msg, JS_BRIDGE_REQUIRED);
        }
        other => panic!("expected JsBridgeUnavailable, got {other:?}"),
    }
}

#[test]
fn plan_issuance_passport_with_bridge() {
    let meta = metadata(
        "https://passport-issuer.local",
        vec![
            ("birth".into(), configuration("birth_fmt")),
            ("digital_passport_v1".into(), configuration("midnight_compact_vc")),
        ],
    );
    let plan = plan_issuance(&vec!["digital_passport_v1".to_string(), "birth".to_string()], &meta, true)
        .unwrap();
    assert_eq!(plan.flow, CredentialFlowKind::DigitalPassport);
    assert_eq!(plan.configuration_id, "digital_passport_v1");
    assert_eq!(plan.format, "midnight_compact_vc");
    assert_eq!(plan.credential_endpoint, "https://passport-issuer.local/credential");
}

#[test]
fn plan_issuance_without_configuration_ids() {
    let meta = metadata("https://issuer.local", vec![("birth".into(), configuration("f"))]);
    assert!(matches!(plan_issuance(&vec![], &meta, true), Err(IssuanceFlowError::MissingConfigurationId)));
}

#[test]
fn plan_issuance_unknown_passport_id_is_unknown_first() {
    let meta = metadata("https://issuer.local", vec![("birth".into(), configuration("f"))]);
    match plan_issuance(&vec!["digital_passport_v2".to_string()], &meta, false) {
        Err(IssuanceFlowError::UnknownConfigurationId(id)) => assert_eq!(id, "digital_passport_v2"),
        other => panic!("expected UnknownConfigurationId, got {other:?}"),
    }
}

#[test]
fn configuration_lookup() {
    let meta = metadata(
        "https://issuer.local",
        vec![("a".into(), configuration("fa")), ("b".into(), configuration("fb"))],
    );
    assert_eq!(meta.configuration("b").unwrap().format, "fb");
    assert_eq!(meta.configuration("a").unwrap().format, "fa");
    assert!(meta.configuration("c").is_none());
}

#[test]
fn configuration_lookup_takes_first_listed_id() {
    let meta = metadata(
        "https://issuer.local",
        vec![("a".into(), configuration("fa")), ("a".into(), configuration("fb"))],
    );
    // The first entry listed under an id is the one found.
    assert_eq!(meta.configuration("a").unwrap().format, "fa");
}
