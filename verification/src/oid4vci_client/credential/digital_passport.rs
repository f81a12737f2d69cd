//! Digital-passport credential responses: body and detached proof arrive as
//! `compact-value-v1.base64url` payloads, the holder comes from the holder
//! binding, the issuer from decoding the credential, and the wallet names the
//! credential itself with a `urn:vc:digital-passport:` URI.

use vstd::prelude::*;

use crate::codec::{
    base64_url_decoded, decode_base64_url, hex_encode, hex_text, is_v4_uuid_text,
    new_uuid_text,
};
use crate::oid4vci_client::credential::{jwt_proof, CredentialFlowError, JwtProof};
use crate::text::{has_prefix, same_text};
use crate::vc_store::in_memory::{InMemoryVcStore, VcStoreView};
use crate::vc_store::laws::{law_insert_openings_lands_all, lemma_insert_openings_keeps_vcs};
use crate::vc_store::types::{StoredVc, StoredVcView, VcOpening, VcOpeningView};
use crate::vc_views::digital_passport::is_passport_uri;

verus! {

/// The only payload encoding the passport issuer uses.
pub const COMPACT_VALUE_ENCODING: &'static str = "compact-value-v1.base64url";

/// The namespace of the URIs the wallet gives passport credentials.
pub const PASSPORT_URI_PREFIX: &'static str = "urn:vc:digital-passport:";

/// The namespace of passport claim paths.
pub const CREDENTIAL_SUBJECT_PREFIX: &'static str = "/credentialSubject/";

/// The credential response of the passport issuer.
#[derive(Debug)]
pub struct DigitalPassportResponse {
    pub credential: DigitalPassportCredential,
    pub openings: Vec<DigitalPassportOpening>,
}

/// The `credential` object of a passport response.
#[derive(Debug)]
pub struct DigitalPassportCredential {
    pub credential: CompactValueField,
    pub credential_proof: CompactValueField,
    pub holder_binding: HolderBinding,
}

/// An `{ encoding, payload }` pair.
#[derive(Debug)]
pub struct CompactValueField {
    pub encoding: String,
    pub payload: String,
}

/// The holder binding the issuer returned.
#[derive(Debug)]
pub struct HolderBinding {
    pub holder_did_method: HolderDidMethod,
}

/// The holder's DID and verification method.
#[derive(Debug)]
pub struct HolderDidMethod {
    pub did: String,
    pub method_id: String,
    pub key_type: String,
}

/// One opening of a passport response, keyed by claim name, values in
/// URL-safe unpadded base64.
#[derive(Debug)]
pub struct DigitalPassportOpening {
    pub field_name: String,
    pub plaintext_b64: String,
    pub opening_b64: String,
}

/// Body, detached proof and holder of a decoded passport credential.
#[derive(Debug)]
pub struct DecodedPassportCredential {
    pub body: Vec<u8>,
    pub proof: Vec<u8>,
    pub holder_did: String,
}

/// What decoding the credential payload reveals about its issuer.
#[derive(Debug)]
pub struct DecodedCredential {
    pub issuer_did: String,
}

/// Both payloads of the response declare the supported encoding.
pub open spec fn encodings_supported(resp: DigitalPassportResponse) -> bool {
    &&& resp.credential.credential.encoding@ == COMPACT_VALUE_ENCODING@
    &&& resp.credential.credential_proof.encoding@ == COMPACT_VALUE_ENCODING@
}

/// Both payloads of the response decode.
pub open spec fn payloads_decode(resp: DigitalPassportResponse) -> bool {
    &&& base64_url_decoded(resp.credential.credential.payload@) is Some
    &&& base64_url_decoded(resp.credential.credential_proof.payload@) is Some
}

/// Checks the payload encodings and decodes body and proof.
pub fn decode_passport_payloads(resp: &DigitalPassportResponse) -> (r: Result<
    DecodedPassportCredential,
    CredentialFlowError,
>)
    ensures
        match r {
            Ok(d) => {
                &&& encodings_supported(*resp)
                &&& base64_url_decoded(resp.credential.credential.payload@) == Some(d.body@)
                &&& base64_url_decoded(resp.credential.credential_proof.payload@) == Some(d.proof@)
                &&& d.holder_did@ == resp.credential.holder_binding.holder_did_method.did@
            },
            Err(CredentialFlowError::Decode(msg)) => if resp.credential.credential.encoding@
                != COMPACT_VALUE_ENCODING@ {
                msg@ == "unsupported credential encoding: "@ + resp.credential.credential.encoding@
            } else {
                resp.credential.credential_proof.encoding@ != COMPACT_VALUE_ENCODING@ && msg@
                    == "unsupported credentialProof encoding: "@
                    + resp.credential.credential_proof.encoding@
            },
            Err(CredentialFlowError::Base64(_)) => encodings_supported(*resp) && !payloads_decode(
                *resp,
            ),
            Err(_) => false,
        },
{
    let c = &resp.credential;
    if !same_text(c.credential.encoding.as_str(), COMPACT_VALUE_ENCODING) {
        let mut msg = String::from_str("unsupported credential encoding: ");
        msg.append(c.credential.encoding.as_str());
        return Err(CredentialFlowError::Decode(msg));
    }
    if !same_text(c.credential_proof.encoding.as_str(), COMPACT_VALUE_ENCODING) {
        let mut msg = String::from_str("unsupported credentialProof encoding: ");
        msg.append(c.credential_proof.encoding.as_str());
        return Err(CredentialFlowError::Decode(msg));
    }
    let body = match decode_base64_url(c.credential.payload.as_str()) {
        Ok(b) => b,
        Err(e) => return Err(CredentialFlowError::Base64(e)),
    };
    let proof = match decode_base64_url(c.credential_proof.payload.as_str()) {
        Ok(b) => b,
        Err(e) => return Err(CredentialFlowError::Base64(e)),
    };
    Ok(DecodedPassportCredential { body, proof, holder_did: c.holder_binding.holder_did_method.did.clone() })
}

/// The URI the wallet gives a passport credential with UUID text `uuid`.
pub open spec fn spec_passport_vc_uri(uuid: Seq<char>) -> Seq<char> {
    PASSPORT_URI_PREFIX@ + uuid
}

/// The URI of a passport credential with UUID text `uuid`.
pub fn passport_vc_uri(uuid: &str) -> (r: String)
    ensures
        r@ == spec_passport_vc_uri(uuid@),
{
    let mut r = String::from_str(PASSPORT_URI_PREFIX);
    r.append(uuid);
    r
}

/// A fresh passport credential URI under a random UUID.
pub fn new_passport_vc_uri() -> (r: String)
    ensures
        exists|u: Seq<char>| is_v4_uuid_text(u) && r@ == spec_passport_vc_uri(u),
{
    let u = new_uuid_text();
    passport_vc_uri(u.as_str())
}

/// Every URI the wallet gives a passport credential is recognised as one by
/// the credential view.
pub proof fn law_passport_uri_is_recognised(uuid: Seq<char>)
    ensures
        is_passport_uri(spec_passport_vc_uri(uuid)),
{
    let u = spec_passport_vc_uri(uuid);
    assert(u.subrange(0, PASSPORT_URI_PREFIX@.len() as int) =~= PASSPORT_URI_PREFIX@);
    assert(PASSPORT_URI_PREFIX@ == "urn:vc:digital-passport:"@);
    assert(has_prefix(u, "urn:vc:digital-passport:"@));
}

/// The claim path of the passport claim `field_name`.
pub open spec fn spec_passport_claim_path(field_name: Seq<char>) -> Seq<char> {
    CREDENTIAL_SUBJECT_PREFIX@ + field_name
}

/// The claim path of the passport claim `field_name`.
pub fn passport_claim_path(field_name: &str) -> (r: String)
    ensures
        r@ == spec_passport_claim_path(field_name@),
{
    let mut r = String::from_str(CREDENTIAL_SUBJECT_PREFIX);
    r.append(field_name);
    r
}

/// Both values of every opening decode.
pub open spec fn passport_openings_decode(openings: Seq<DigitalPassportOpening>) -> bool {
    forall|i: int|
        0 <= i < openings.len() ==> {
            &&& base64_url_decoded(#[trigger] openings[i].plaintext_b64@) is Some
            &&& base64_url_decoded(openings[i].opening_b64@) is Some
        }
}

/// The stored opening the `i`-th wire opening stands for.
pub open spec fn passport_opening(
    openings: Seq<DigitalPassportOpening>,
    vc_uri: Seq<char>,
    i: int,
) -> VcOpeningView {
    VcOpeningView {
        vc_uri,
        claim_path: spec_passport_claim_path(openings[i].field_name@),
        plaintext: base64_url_decoded(openings[i].plaintext_b64@)->0,
        opening: base64_url_decoded(openings[i].opening_b64@)->0,
    }
}

/// The openings a passport response stands for, in response order.
pub open spec fn passport_openings(
    openings: Seq<DigitalPassportOpening>,
    vc_uri: Seq<char>,
) -> Seq<VcOpeningView> {
    Seq::new(openings.len(), |i: int| passport_opening(openings, vc_uri, i))
}

/// The credential and openings of a decoded passport response, stored under
/// `vc_uri`, issued by `issuer_did`. Fails with `Base64` when an opening value
/// does not decode.
pub fn assemble_passport_credential(
    decoded: DecodedPassportCredential,
    openings: &Vec<DigitalPassportOpening>,
    issuer_did: String,
    vc_uri: String,
    format: &str,
    issued_at_ms: u64,
) -> (r: Result<(StoredVc, Vec<VcOpening>), CredentialFlowError>)
    ensures
        match r {
            Ok((vc, ops)) => {
                &&& passport_openings_decode(openings@)
                &&& vc@ == (StoredVcView {
                    vc_uri: vc_uri@,
                    issuer_did: issuer_did@,
                    holder_did: decoded.holder_did@,
                    format: format@,
                    body: decoded.body@,
                    proof: decoded.proof@,
                    issued_at_ms,
                })
                &&& ops@.map_values(|o: VcOpening| o@) == passport_openings(openings@, vc_uri@)
            },
            Err(CredentialFlowError::Base64(_)) => !passport_openings_decode(openings@),
            Err(_) => false,
        },
{
    let ghost uri = vc_uri@;
    let vc = StoredVc {
        vc_uri,
        issuer_did,
        holder_did: decoded.holder_did,
        format: String::from_str(format),
        body: decoded.body,
        proof: decoded.proof,
        issued_at_ms,
    };
    let mut ops: Vec<VcOpening> = Vec::new();
    let n = openings.len();
    for i in 0..n
        invariant
            n == openings@.len(),
            vc.vc_uri@ == uri,
            ops@.len() == i,
            ops@.map_values(|o: VcOpening| o@) == passport_openings(openings@, uri).take(i as int),
            forall|j: int|
                0 <= j < i ==> {
                    &&& base64_url_decoded(#[trigger] openings@[j].plaintext_b64@) is Some
                    &&& base64_url_decoded(openings@[j].opening_b64@) is Some
                },
    {
        let w = &openings[i];
        let plaintext = match decode_base64_url(w.plaintext_b64.as_str()) {
            Ok(b) => b,
            Err(e) => return Err(CredentialFlowError::Base64(e)),
        };
        let opening = match decode_base64_url(w.opening_b64.as_str()) {
            Ok(b) => b,
            Err(e) => return Err(CredentialFlowError::Base64(e)),
        };
        let ghost prev = ops@;
        ops.push(
            VcOpening {
                vc_uri: vc.vc_uri.clone(),
                claim_path: passport_claim_path(w.field_name.as_str()),
                plaintext,
                opening,
            },
        );
        proof {
            assert(ops@ == prev.push(ops@[i as int]));
            assert(ops@.map_values(|o: VcOpening| o@) =~= passport_openings(openings@, uri).take(
                i + 1,
            ));
        }
    }
    proof {
        assert(passport_openings(openings@, uri).take(n as int) =~= passport_openings(openings@, uri));
    }
    Ok((vc, ops))
}

/// The stored credential a decoded passport response stands for.
pub open spec fn passport_vc(
    resp: DigitalPassportResponse,
    issuer_did: Seq<char>,
    vc_uri: Seq<char>,
    format: Seq<char>,
    issued_at_ms: u64,
) -> StoredVcView {
    StoredVcView {
        vc_uri,
        issuer_did,
        holder_did: resp.credential.holder_binding.holder_did_method.did@,
        format,
        body: base64_url_decoded(resp.credential.credential.payload@)->0,
        proof: base64_url_decoded(resp.credential.credential_proof.payload@)->0,
        issued_at_ms,
    }
}

/// What a store holds after a passport response was landed in it.
pub open spec fn landed_passport(
    s: VcStoreView,
    resp: DigitalPassportResponse,
    issuer_did: Seq<char>,
    vc_uri: Seq<char>,
    format: Seq<char>,
    issued_at_ms: u64,
) -> VcStoreView {
    s.insert_vc(passport_vc(resp, issuer_did, vc_uri, format, issued_at_ms)).insert_openings(
        passport_openings(resp.openings@, vc_uri),
    )
}

/// A landed passport credential is read back under its URI as decoded, and
/// every opening of the response is stored under that URI and its
/// `/credentialSubject/` claim path.
pub proof fn law_landed_passport_credential_is_readable(
    s: VcStoreView,
    resp: DigitalPassportResponse,
    issuer_did: Seq<char>,
    vc_uri: Seq<char>,
    format: Seq<char>,
    issued_at_ms: u64,
)
    ensures
        landed_passport(s, resp, issuer_did, vc_uri, format, issued_at_ms).vcs.contains_key(vc_uri),
        landed_passport(s, resp, issuer_did, vc_uri, format, issued_at_ms).vcs[vc_uri] == passport_vc(
            resp,
            issuer_did,
            vc_uri,
            format,
            issued_at_ms,
        ),
        forall|i: int|
            0 <= i < resp.openings@.len() ==> landed_passport(
                s,
                resp,
                issuer_did,
                vc_uri,
                format,
                issued_at_ms,
            ).openings.contains_key(
                (vc_uri, spec_passport_claim_path(#[trigger] resp.openings@[i].field_name@)),
            ),
{
    let t = s.insert_vc(passport_vc(resp, issuer_did, vc_uri, format, issued_at_ms));
    let ops = passport_openings(resp.openings@, vc_uri);
    lemma_insert_openings_keeps_vcs(t, ops);
    assert forall|i: int| 0 <= i < resp.openings@.len() implies landed_passport(
        s,
        resp,
        issuer_did,
        vc_uri,
        format,
        issued_at_ms,
    ).openings.contains_key(
        (vc_uri, spec_passport_claim_path(#[trigger] resp.openings@[i].field_name@)),
    ) by {
        law_insert_openings_lands_all(t, ops, i);
        assert(ops[i] == passport_opening(resp.openings@, vc_uri, i));
    }
}

/// Decodes a passport response and stores it under `vc_uri`, issued by
/// `issuer_did`. Returns the credential URI.
pub fn land_passport_credential(
    store: &mut InMemoryVcStore,
    resp: &DigitalPassportResponse,
    issuer_did: String,
    vc_uri: String,
    format: &str,
    issued_at_ms: u64,
) -> (r: Result<String, CredentialFlowError>)
    requires
        old(store).wf(),
    ensures
        final(store).wf(),
        match r {
            Ok(uri) => {
                &&& encodings_supported(*resp)
                &&& payloads_decode(*resp)
                &&& passport_openings_decode(resp.openings@)
                &&& uri@ == vc_uri@
                &&& final(store)@ == landed_passport(
                    old(store)@,
                    *resp,
                    issuer_did@,
                    vc_uri@,
                    format@,
                    issued_at_ms,
                )
            },
            Err(CredentialFlowError::Decode(_)) => !encodings_supported(*resp) && final(store)@
                == old(store)@,
            Err(CredentialFlowError::Base64(_)) => encodings_supported(*resp) && (!payloads_decode(
                *resp,
            ) || !passport_openings_decode(resp.openings@)) && final(store)@ == old(store)@,
            Err(_) => false,
        },
{
    let decoded = match decode_passport_payloads(resp) {
        Ok(d) => d,
        Err(e) => return Err(e),
    };
    match assemble_passport_credential(decoded, &resp.openings, issuer_did, vc_uri, format, issued_at_ms) {
        Ok((vc, ops)) => {
            store.insert_vc_with_openings(&vc, ops.as_slice());
            Ok(vc.vc_uri)
        },
        Err(e) => Err(e),
    }
}

/// The key id under which the holder's assertion key is kept.
pub fn assertion_kid(holder_did: &str) -> (r: String)
    ensures
        r@ == holder_did@ + "#key-assert"@,
{
    let mut r = String::from_str(holder_did);
    r.append("#key-assert");
    r
}

/// The `midnight` extension's holder binding: an explicit DID method
/// answering the token's challenge.
#[derive(Debug)]
pub struct HolderBindingRequest {
    pub method: String,
    pub challenge: String,
    pub holder_did_method: HolderDidMethod,
}

/// The holder's Jubjub public key as hex coordinates.
#[derive(Debug)]
pub struct HolderPublicKey {
    pub x: String,
    pub y: String,
}

/// The `midnight` extension of a passport credential request.
#[derive(Debug)]
pub struct MidnightExtension {
    pub holder_binding: HolderBindingRequest,
    pub holder_public_key: HolderPublicKey,
    pub requested_claims: Vec<String>,
}

/// The body of a passport credential request.
#[derive(Debug)]
pub struct PassportCredentialRequest {
    pub format: String,
    pub credential_configuration_id: String,
    pub proof: JwtProof,
    pub midnight: MidnightExtension,
}

/// The passport credential request: the JWT proof, and a holder binding that
/// answers `c_nonce` with the holder's `#key-assert` Jubjub key, whose
/// coordinates are `x_hex` and `y_hex`; no claims are requested.
pub fn passport_credential_request(
    format: &str,
    credential_configuration_id: &str,
    jwt: &str,
    c_nonce: &str,
    holder_did: &str,
    x_hex: &str,
    y_hex: &str,
) -> (r: PassportCredentialRequest)
    ensures
        r.format@ == format@,
        r.credential_configuration_id@ == credential_configuration_id@,
        r.proof.proof_type@ == "jwt"@,
        r.proof.jwt@ == jwt@,
        r.midnight.holder_binding.method@ == "explicit_did_method"@,
        r.midnight.holder_binding.challenge@ == c_nonce@,
        r.midnight.holder_binding.holder_did_method.did@ == holder_did@,
        r.midnight.holder_binding.holder_did_method.method_id@ == "#key-assert"@,
        r.midnight.holder_binding.holder_did_method.key_type@ == "jubjub"@,
        r.midnight.holder_public_key.x@ == x_hex@,
        r.midnight.holder_public_key.y@ == y_hex@,
        r.midnight.requested_claims@.len() == 0,
{
    PassportCredentialRequest {
        format: String::from_str(format),
        credential_configuration_id: String::from_str(credential_configuration_id),
        proof: jwt_proof(jwt),
        midnight: MidnightExtension {
            holder_binding: HolderBindingRequest {
                method: String::from_str("explicit_did_method"),
                challenge: String::from_str(c_nonce),
                holder_did_method: HolderDidMethod {
                    did: String::from_str(holder_did),
                    method_id: String::from_str("#key-assert"),
                    key_type: String::from_str("jubjub"),
                },
            },
            holder_public_key: HolderPublicKey { x: String::from_str(x_hex), y: String::from_str(y_hex) },
            requested_claims: Vec::new(),
        },
    }
}

/// The error of a secret store that holds no key under `kid`.
pub fn missing_key_error(kid: &str) -> (r: CredentialFlowError)
    ensures
        r matches CredentialFlowError::SecretStore(m) && m@ == "no key with kid="@ + kid@
            + " in secret store"@,
{
    let mut m = String::from_str("no key with kid=");
    m.append(kid);
    m.append(" in secret store");
    CredentialFlowError::SecretStore(m)
}

/// The message text of a base64 decoding error.
///
/// Trusted: the `Display` implementation of `base64::DecodeError`; nothing is
/// stated of the text.
#[verifier::external_body]
fn decode_error_text(e: &base64::DecodeError) -> String {
    e.to_string()
}

/// The holder public key as the two 64-character hex coordinates the
/// issuer expects, from the URL-safe base64 coordinates of its JWK.
pub fn holder_public_key_hex(x_b64: &str, y_b64: Option<&str>) -> (r: Result<
    (String, String),
    CredentialFlowError,
>)
    ensures
        match r {
            Ok((x, y)) => {
                &&& y_b64 is Some
                &&& base64_url_decoded(x_b64@) is Some
                &&& base64_url_decoded(y_b64->0@) is Some
                &&& x@ == hex_text(base64_url_decoded(x_b64@)->0)
                &&& y@ == hex_text(base64_url_decoded(y_b64->0@)->0)
            },
            Err(CredentialFlowError::SecretStore(msg)) => if base64_url_decoded(x_b64@) is None {
                has_prefix(msg@, "decode Jubjub x: "@)
            } else if y_b64 is None {
                msg@ == "Jubjub JWK missing y coordinate"@
            } else {
                base64_url_decoded(y_b64->0@) is None && has_prefix(msg@, "decode Jubjub y: "@)
            },
            Err(_) => false,
        },
{
    let x = match decode_base64_url(x_b64) {
        Ok(b) => b,
        Err(e) => {
            let mut msg = String::from_str("decode Jubjub x: ");
            let detail = decode_error_text(&e);
            msg.append(detail.as_str());
            proof {
                assert(msg@.subrange(0, "decode Jubjub x: "@.len() as int) =~= "decode Jubjub x: "@);
            }
            return Err(CredentialFlowError::SecretStore(msg));
        },
    };
    let y_text = match y_b64 {
        Some(t) => t,
        None => return Err(CredentialFlowError::SecretStore(String::from_str("Jubjub JWK missing y coordinate"))),
    };
    let y = match decode_base64_url(y_text) {
        Ok(b) => b,
        Err(e) => {
            let mut msg = String::from_str("decode Jubjub y: ");
            let detail = decode_error_text(&e);
            msg.append(detail.as_str());
            proof {
                assert(msg@.subrange(0, "decode Jubjub y: "@.len() as int) =~= "decode Jubjub y: "@);
            }
            return Err(CredentialFlowError::SecretStore(msg));
        },
    };
    Ok((hex_encode(x.as_slice()), hex_encode(y.as_slice())))
}

} // verus!
