use base64::engine::general_purpose::{STANDARD, URL_SAFE_NO_PAD};
use base64::Engine;

use wallet_core::oid4vci_client::credential::birth::{
    birth_credential_request, decode_birth_credential, land_birth_credential, CredentialBody,
    IssuedVc, OpeningWire,
};
use wallet_core::oid4vci_client::credential::digital_passport::{
    assemble_passport_credential, assertion_kid, decode_passport_payloads,
    holder_public_key_hex, land_passport_credential, missing_key_error, new_passport_vc_uri,
    passport_claim_path, passport_credential_request, passport_vc_uri, CompactValueField,
    DecodedPassportCredential, DigitalPassportCredential, DigitalPassportOpening,
    DigitalPassportResponse, HolderBinding, HolderDidMethod, COMPACT_VALUE_ENCODING,
    CREDENTIAL_SUBJECT_PREFIX, PASSPORT_URI_PREFIX,
};
use wallet_core::oid4vci_client::credential::CredentialFlowError;
use wallet_core::vc_store::in_memory::InMemoryVcStore;
use wallet_core::vc_store::StoredVc;
use wallet_core::vc_views::digital_passport::is_digital_passport;

fn birth_response() -> IssuedVc {
    IssuedVc {
        credential: CredentialBody {
            vc_uri: "urn:uuid:birth-1".into(),
            issuer_did: "did:midnight:issuer".into(),
            holder_did: "did:midnight:alice".into(),
            body_b64: STANDARD.encode(b"COMPACT_VC_BYTES"),
        },
        openings: vec![OpeningWire {
            claim_path: "/credentialSubject/dateOfBirth".into(),
            plaintext_b64: STANDARD.encode(b"1985-01-01"),
            opening_b64: STANDARD.encode(b"rand"),
        }],
    }
}

fn passport_response() -> DigitalPassportResponse {
    DigitalPassportResponse {
        credential: DigitalPassportCredential {
            credential: CompactValueField {
                encoding: COMPACT_VALUE_ENCODING.into(),
                payload: URL_SAFE_NO_PAD.encode(b"PASSPORT_CREDENTIAL_BODY"),
            },
            credential_proof: CompactValueField {
                encoding: "compact-value-v1.base64url".into(),
                payload: URL_SAFE_NO_PAD.encode(b"PASSPORT_CREDENTIAL_PROOF"),
            },
            holder_binding: HolderBinding {
                holder_did_method: HolderDidMethod {
                    did: "did:midnight:holder123".into(),
                    method_id: "#key-assert".into(),
                    key_type: "jubjub".into(),
                },
            },
        },
        openings: vec![DigitalPassportOpening {
            field_name: "dateOfBirth".into(),
            plaintext_b64: URL_SAFE_NO_PAD.encode(b"1985-01-01"),
            opening_b64: URL_SAFE_NO_PAD.encode(b"opening-bytes"),
        }],
    }
}

#[test]
fn request_credential_lands_vc_and_openings() {
    let mut store = InMemoryVcStore::new();
    let uri = land_birth_credential(&mut store, &birth_response(), "midnight_compact_vc", 1_700_000_000_000)
        .unwrap();
    assert_eq!(uri, "urn:uuid:birth-1");
    let vc = store.get_vc(&uri).unwrap();
    assert_eq!(vc.issuer_did, "did:midnight:issuer");
    assert_eq!(vc.holder_did, "did:midnight:alice");
    assert_eq!(vc.format, "midnight_compact_vc");
    assert_eq!(vc.body, b"COMPACT_VC_BYTES".to_vec());
    assert!(vc.proof.is_empty());
    assert_eq!(vc.issued_at_ms, 1_700_000_000_000, "issued_at_ms should come from the injected clock");
    let op = store.get_opening(&uri, "/credentialSubject/dateOfBirth").unwrap();
    assert_eq!(op.plaintext, b"1985-01-01".to_vec());
    assert_eq!(op.opening, b"rand".to_vec());
}

#[test]
fn decode_birth_credential_rejects_bad_base64() {
    let mut issued = birth_response();
    issued.openings[0].opening_b64 = "!!not base64!!".into();
    assert!(matches!(
        decode_birth_credential(&issued, "f", 1),
        Err(CredentialFlowError::Base64(_))
    ));
    let mut store = InMemoryVcStore::new();
    assert!(matches!(land_birth_credential(&mut store, &issued, "f", 1), Err(CredentialFlowError::Base64(_))));
    assert!(store.get_vc("urn:uuid:birth-1").is_none());

    let mut issued = birth_response();
    issued.credential.body_b64 = "%%%".into();
    assert!(matches!(decode_birth_credential(&issued, "f", 1), Err(CredentialFlowError::Base64(_))));
}

#[test]
fn decode_birth_credential_keeps_opening_order() {
    let mut issued = birth_response();
    issued.openings.push(OpeningWire {
        claim_path: "/credentialSubject/name".into(),
        plaintext_b64: STANDARD.encode(b"Alice"),
        opening_b64: STANDARD.encode([1u8, 2, 3]),
    });
    let (vc, ops) = decode_birth_credential(&issued, "fmt", 7).unwrap();
    assert_eq!(vc.vc_uri, "urn:uuid:birth-1");
    assert_eq!(vc.format, "fmt");
    assert_eq!(vc.issued_at_ms, 7);
    assert_eq!(ops.len(), 2);
    assert_eq!(ops[0].claim_path, "/credentialSubject/dateOfBirth");
    assert_eq!(ops[1].claim_path, "/credentialSubject/name");
    assert_eq!(ops[1].vc_uri, "urn:uuid:birth-1");
    assert_eq!(ops[1].opening, vec![1, 2, 3]);
}

#[test]
fn birth_request_body() {
    let req = birth_credential_request("midnight_compact_vc", "h.p.s");
    assert_eq!(req.format, "midnight_compact_vc");
    assert_eq!(req.proof.proof_type, "jwt");
    assert_eq!(req.proof.jwt, "h.p.s");
}

#[test]
fn request_credential_passport_round_trip() {
    let mut store = InMemoryVcStore::new();
    let resp = passport_response();
    let vc_uri = passport_vc_uri("1234");
    let uri = land_passport_credential(
        &mut store,
        &resp,
        "did:midnight:issuer456".into(),
        vc_uri,
        "midnight_compact_vc",
        1_700_000_001_000,
    )
    .unwrap();
    assert_eq!(uri, "urn:vc:digital-passport:1234");
    let vc = store.get_vc(&uri).unwrap();
    assert_eq!(vc.issuer_did, "did:midnight:issuer456");
    assert_eq!(vc.holder_did, "did:midnight:holder123");
    assert_eq!(vc.format, "midnight_compact_vc");
    assert_eq!(vc.body, b"PASSPORT_CREDENTIAL_BODY".to_vec());
    assert_eq!(vc.proof, b"PASSPORT_CREDENTIAL_PROOF".to_vec());
    assert_eq!(vc.issued_at_ms, 1_700_000_001_000);
    assert!(is_digital_passport(&vc));
    let op = store.get_opening(&uri, "/credentialSubject/dateOfBirth").unwrap();
    assert_eq!(op.plaintext, b"1985-01-01".to_vec());
    assert_eq!(op.opening, b"opening-bytes".to_vec());
}

#[test]
fn passport_unsupported_encodings() {
    let mut resp = passport_response();
    resp.credential.credential.encoding = "raw".into();
    match decode_passport_payloads(&resp) {
        Err(CredentialFlowError::Decode(msg)) => assert_eq!(msg, "unsupported credential encoding: raw"),
        other => panic!("expected Decode error, got {other:?}"),
    }
    let mut resp = passport_response();
    resp.credential.credential_proof.encoding = "hex".into();
    match decode_passport_payloads(&resp) {
        Err(CredentialFlowError::Decode(msg)) => assert_eq!(msg, "unsupported credentialProof encoding: hex"),
        other => panic!("expected Decode error, got {other:?}"),
    }
    let mut store = InMemoryVcStore::new();
    let r = land_passport_credential(&mut store, &resp, "i".into(), "urn:x".into(), "f", 0);
    assert!(matches!(r, Err(CredentialFlowError::Decode(_))));
    assert!(store.get_vc("urn:x").is_none());
}

#[test]
fn passport_payload_not_base64url() {
    let mut resp = passport_response();
    resp.credential.credential_proof.payload = "a+b/".into();
    assert!(matches!(decode_passport_payloads(&resp), Err(CredentialFlowError::Base64(_))));
    let mut resp = passport_response();
    resp.openings[0].plaintext_b64 = "====".into();
    let mut store = InMemoryVcStore::new();
    let r = land_passport_credential(&mut store, &resp, "i".into(), "urn:x".into(), "f", 0);
    assert!(matches!(r, Err(CredentialFlowError::Base64(_))));
    assert!(store.get_vc("urn:x").is_none());
}

#[test]
fn decode_passport_payloads_values() {
    let d = decode_passport_payloads(&passport_response()).unwrap();
    assert_eq!(d.body, b"PASSPORT_CREDENTIAL_BODY".to_vec());
    assert_eq!(d.proof, b"PASSPORT_CREDENTIAL_PROOF".to_vec());
    assert_eq!(d.holder_did, "did:midnight:holder123");
}

#[test]
fn assemble_passport_credential_maps_field_names() {
    let decoded = DecodedPassportCredential { body: vec![1], proof: vec![2], holder_did: "did:h".into() };
    let openings = vec![
        DigitalPassportOpening {
            field_name: "firstName".into(),
            plaintext_b64: URL_SAFE_NO_PAD.encode(b"Alice"),
            opening_b64: URL_SAFE_NO_PAD.encode([7u8]),
        },
        DigitalPassportOpening {
            field_name: "lastName".into(),
            plaintext_b64: URL_SAFE_NO_PAD.encode(b"Smith"),
            opening_b64: URL_SAFE_NO_PAD.encode([8u8]),
        },
    ];
    let (vc, ops) =
        assemble_passport_credential(decoded, &openings, "did:i".into(), "urn:p".into(), "fmt", 5).unwrap();
    assert_eq!(vc.vc_uri, "urn:p");
    assert_eq!(vc.issuer_did, "did:i");
    assert_eq!(vc.holder_did, "did:h");
    assert_eq!(vc.body, vec![1]);
    assert_eq!(vc.proof, vec![2]);
    assert_eq!(ops.len(), 2);
    assert_eq!(ops[0].claim_path, "/credentialSubject/firstName");
    assert_eq!(ops[0].plaintext, b"Alice".to_vec());
    assert_eq!(ops[1].claim_path, "/credentialSubject/lastName");
    assert_eq!(ops[1].opening, vec![8]);
    assert_eq!(ops[1].vc_uri, "urn:p");
}

#[test]
fn passport_uris_and_paths() {
    assert_eq!(PASSPORT_URI_PREFIX, "urn:vc:digital-passport:");
    assert_eq!(CREDENTIAL_SUBJECT_PREFIX, "/credentialSubject/");
    assert_eq!(passport_claim_path("dateOfBirth"), "/credentialSubject/dateOfBirth");
    let uri = new_passport_vc_uri();
    assert!(uri.starts_with("urn:vc:digital-passport:"));
    let uuid = &uri["urn:vc:digital-passport:".len()..];
    assert_eq!(uuid.len(), 36);
    for (i, c) in uuid.chars().enumerate() {
        if i == 8 || i == 13 || i == 18 || i == 23 {
            assert_eq!(c, '-');
        } else {
            assert!(c.is_ascii_hexdigit() && !c.is_ascii_uppercase());
        }
    }
    assert_eq!(uuid.as_bytes()[14], b'4');
    assert!(matches!(uuid.as_bytes()[19], b'8' | b'9' | b'a' | b'b'));
    assert_ne!(new_passport_vc_uri(), uri);
    let vc = StoredVc {
        vc_uri: uri,
        issuer_did: String::new(),
        holder_did: String::new(),
        format: String::new(),
        body: vec![],
        proof: vec![],
        issued_at_ms: 0,
    };
    assert!(is_digital_passport(&vc));
}

#[test]
fn request_credential_passport_missing_assertion_key_fails() {
    let kid = assertion_kid("did:midnight:test");
    assert_eq!(kid, "did:midnight:test#key-assert");
    match missing_key_error(&kid) {
        CredentialFlowError::SecretStore(msg) => {
            assert!(msg.contains("#key-assert"), "error should mention #key-assert: {msg}");
            assert_eq!(msg, "no key with kid=did:midnight:test#key-assert in secret store");
        }
        other => panic!("expected SecretStore error, got {other:?}"),
    }
}

#[test]
fn holder_public_key_hex_values() {
    let x = URL_SAFE_NO_PAD.encode([0x00u8, 0x0f, 0xa0, 0xff]);
    let y = URL_SAFE_NO_PAD.encode([0x12u8, 0x34]);
    let (xh, yh) = holder_public_key_hex(&x, Some(&y)).unwrap();
    assert_eq!(xh, "000fa0ff");
    assert_eq!(yh, "1234");
    let full = URL_SAFE_NO_PAD.encode([0xabu8; 32]);
    let (xh, _) = holder_public_key_hex(&full, Some(&full)).unwrap();
    assert_eq!(xh.len(), 64);
    assert_eq!(xh, "ab".repeat(32));
}

#[test]
fn holder_public_key_hex_errors() {
    let good = URL_SAFE_NO_PAD.encode([1u8, 2]);
    match holder_public_key_hex("***", Some(&good)) {
        Err(CredentialFlowError::SecretStore(m)) => assert!(m.starts_with("decode Jubjub x: ")),
        other => panic!("expected SecretStore error, got {other:?}"),
    }
    match holder_public_key_hex(&good, None) {
        Err(CredentialFlowError::SecretStore(m)) => assert_eq!(m, "Jubjub JWK missing y coordinate"),
        other => panic!("expected SecretStore error, got {other:?}"),
    }
    match holder_public_key_hex(&good, Some("***")) {
        Err(CredentialFlowError::SecretStore(m)) => assert!(m.starts_with("decode Jubjub y: ")),
        other => panic!("expected SecretStore error, got {other:?}"),
    }
}

#[test]
fn passport_request_body() {
    let req = passport_credential_request(
        "midnight_compact_vc",
        "digital_passport_v1",
        "h.p.s",
        "CN-1",
        "did:midnight:holder123",
        "aa",
        "bb",
    );
    assert_eq!(req.format, "midnight_compact_vc");
    assert_eq!(req.credential_configuration_id, "digital_passport_v1");
    assert_eq!(req.proof.proof_type, "jwt");
    assert_eq!(req.proof.jwt, "h.p.s");
    assert_eq!(req.midnight.holder_binding.method, "explicit_did_method");
    assert_eq!(req.midnight.holder_binding.challenge, "CN-1");
    assert_eq!(req.midnight.holder_binding.holder_did_method.did, "did:midnight:holder123");
    assert_eq!(req.midnight.holder_binding.holder_did_method.method_id, "#key-assert");
    assert_eq!(req.midnight.holder_binding.holder_did_method.key_type, "jubjub");
    assert_eq!(req.midnight.holder_public_key.x, "aa");
    assert_eq!(req.midnight.holder_public_key.y, "bb");
    assert!(req.midnight.requested_claims.is_empty());
}
