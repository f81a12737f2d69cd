//! Birth-credential (legacy Compact VC) responses: the issuer assigns the
//! credential URI and sends body and openings as standard base64.

use vstd::prelude::*;

use crate::codec::{base64_standard_decoded, decode_base64_standard};
use crate::oid4vci_client::credential::{jwt_proof, CredentialFlowError, JwtProof};
use crate::vc_store::in_memory::{InMemoryVcStore, VcStoreView};
use crate::vc_store::laws::{law_insert_openings_lands_all, lemma_insert_openings_keeps_vcs};
use crate::vc_store::types::{StoredVc, StoredVcView, VcOpening, VcOpeningView};

verus! {

/// The credential response of the birth issuer.
#[derive(Debug)]
pub struct IssuedVc {
    pub credential: CredentialBody,
    pub openings: Vec<OpeningWire>,
}

/// The credential object of a birth response; `body_b64` is the
/// Compact-serialized credential in standard base64.
#[derive(Debug)]
pub struct CredentialBody {
    pub vc_uri: String,
    pub issuer_did: String,
    pub holder_did: String,
    pub body_b64: String,
}

/// One opening of a birth response, values in standard base64.
#[derive(Debug)]
pub struct OpeningWire {
    pub claim_path: String,
    pub plaintext_b64: String,
    pub opening_b64: String,
}

/// The body of a birth credential request: the credential format and the
/// JWT proof over the token's nonce.
#[derive(Debug)]
pub struct BirthCredentialRequest {
    pub format: String,
    pub proof: JwtProof,
}

/// The birth credential request for `format`, proven by `jwt`.
pub fn birth_credential_request(format: &str, jwt: &str) -> (r: BirthCredentialRequest)
    ensures
        r.format@ == format@,
        r.proof.proof_type@ == "jwt"@,
        r.proof.jwt@ == jwt@,
{
    BirthCredentialRequest { format: String::from_str(format), proof: jwt_proof(jwt) }
}

/// Every base64 field of the response decodes.
pub open spec fn birth_decodes(issued: IssuedVc) -> bool {
    &&& base64_standard_decoded(issued.credential.body_b64@) is Some
    &&& forall|i: int|
        0 <= i < issued.openings@.len() ==> {
            &&& base64_standard_decoded(#[trigger] issued.openings@[i].plaintext_b64@) is Some
            &&& base64_standard_decoded(issued.openings@[i].opening_b64@) is Some
        }
}

/// The stored credential a birth response stands for.
pub open spec fn birth_vc(issued: IssuedVc, format: Seq<char>, issued_at_ms: u64) -> StoredVcView {
    StoredVcView {
        vc_uri: issued.credential.vc_uri@,
        issuer_did: issued.credential.issuer_did@,
        holder_did: issued.credential.holder_did@,
        format,
        body: base64_standard_decoded(issued.credential.body_b64@)->0,
        proof: Seq::empty(),
        issued_at_ms,
    }
}

/// The stored opening the `i`-th wire opening stands for.
pub open spec fn birth_opening(issued: IssuedVc, i: int) -> VcOpeningView {
    VcOpeningView {
        vc_uri: issued.credential.vc_uri@,
        claim_path: issued.openings@[i].claim_path@,
        plaintext: base64_standard_decoded(issued.openings@[i].plaintext_b64@)->0,
        opening: base64_standard_decoded(issued.openings@[i].opening_b64@)->0,
    }
}

/// The openings a birth response stands for, in response order.
pub open spec fn birth_openings(issued: IssuedVc) -> Seq<VcOpeningView> {
    Seq::new(issued.openings@.len(), |i: int| birth_opening(issued, i))
}

/// The credential and openings of a birth response: `format` and the
/// issuance time are the caller's, the rest comes decoded from the response.
/// Fails with `Base64` when any base64 field does not decode.
pub fn decode_birth_credential(issued: &IssuedVc, format: &str, issued_at_ms: u64) -> (r: Result<
    (StoredVc, Vec<VcOpening>),
    CredentialFlowError,
>)
    ensures
        match r {
            Ok((vc, ops)) => {
                &&& birth_decodes(*issued)
                &&& vc@ == birth_vc(*issued, format@, issued_at_ms)
                &&& ops@.map_values(|o: VcOpening| o@) == birth_openings(*issued)
            },
            Err(CredentialFlowError::Base64(_)) => !birth_decodes(*issued),
            Err(_) => false,
        },
{
    let body = match decode_base64_standard(issued.credential.body_b64.as_str()) {
        Ok(b) => b,
        Err(e) => return Err(CredentialFlowError::Base64(e)),
    };
    let vc = StoredVc {
        vc_uri: issued.credential.vc_uri.clone(),
        issuer_did: issued.credential.issuer_did.clone(),
        holder_did: issued.credential.holder_did.clone(),
        format: String::from_str(format),
        body,
        proof: Vec::new(),
        issued_at_ms,
    };
    let mut ops: Vec<VcOpening> = Vec::new();
    let n = issued.openings.len();
    for i in 0..n
        invariant
            n == issued.openings@.len(),
            base64_standard_decoded(issued.credential.body_b64@) is Some,
            vc@ == birth_vc(*issued, format@, issued_at_ms),
            ops@.len() == i,
            ops@.map_values(|o: VcOpening| o@) == birth_openings(*issued).take(i as int),
            forall|j: int|
                0 <= j < i ==> {
                    &&& base64_standard_decoded(#[trigger] issued.openings@[j].plaintext_b64@) is Some
                    &&& base64_standard_decoded(issued.openings@[j].opening_b64@) is Some
                },
    {
        let w = &issued.openings[i];
        let plaintext = match decode_base64_standard(w.plaintext_b64.as_str()) {
            Ok(b) => b,
            Err(e) => return Err(CredentialFlowError::Base64(e)),
        };
        let opening = match decode_base64_standard(w.opening_b64.as_str()) {
            Ok(b) => b,
            Err(e) => return Err(CredentialFlowError::Base64(e)),
        };
        let ghost prev = ops@;
        ops.push(
            VcOpening {
                vc_uri: issued.credential.vc_uri.clone(),
                claim_path: w.claim_path.clone(),
                plaintext,
                opening,
            },
        );
        proof {
            assert(ops@ == prev.push(ops@[i as int]));
            assert(ops@.map_values(|o: VcOpening| o@) =~= birth_openings(*issued).take(i + 1));
        }
    }
    proof {
        assert(birth_openings(*issued).take(n as int) =~= birth_openings(*issued));
        assert(vc@.body == birth_vc(*issued, format@, issued_at_ms).body);
    }
    Ok((vc, ops))
}

/// Decodes a birth response and stores credential and openings together.
/// Returns the credential URI, which the issuer assigned.
pub fn land_birth_credential(
    store: &mut InMemoryVcStore,
    issued: &IssuedVc,
    format: &str,
    issued_at_ms: u64,
) -> (r: Result<String, CredentialFlowError>)
    requires
        old(store).wf(),
    ensures
        final(store).wf(),
        match r {
            Ok(uri) => {
                &&& birth_decodes(*issued)
                &&& uri@ == issued.credential.vc_uri@
                &&& final(store)@ == landed_birth(old(store)@, *issued, format@, issued_at_ms)
            },
            Err(CredentialFlowError::Base64(_)) => !birth_decodes(*issued) && final(store)@
                == old(store)@,
            Err(_) => false,
        },
{
    match decode_birth_credential(issued, format, issued_at_ms) {
        Ok((vc, ops)) => {
            store.insert_vc_with_openings(&vc, ops.as_slice());
            Ok(vc.vc_uri)
        },
        Err(e) => Err(e),
    }
}

/// What a store holds after a birth response was landed in it.
pub open spec fn landed_birth(s: VcStoreView, issued: IssuedVc, format: Seq<char>, issued_at_ms: u64) -> VcStoreView {
    s.insert_vc(birth_vc(issued, format, issued_at_ms)).insert_openings(birth_openings(issued))
}

/// A landed birth credential is read back under the issuer's URI as decoded,
/// and every opening of the response is stored under that URI and its claim
/// path.
pub proof fn law_landed_birth_credential_is_readable(
    s: VcStoreView,
    issued: IssuedVc,
    format: Seq<char>,
    issued_at_ms: u64,
)
    ensures
        landed_birth(s, issued, format, issued_at_ms).vcs.contains_key(issued.credential.vc_uri@),
        landed_birth(s, issued, format, issued_at_ms).vcs[issued.credential.vc_uri@] == birth_vc(
            issued,
            format,
            issued_at_ms,
        ),
        forall|i: int|
            0 <= i < issued.openings@.len() ==> landed_birth(
                s,
                issued,
                format,
                issued_at_ms,
            ).openings.contains_key((issued.credential.vc_uri@, #[trigger] issued.openings@[i].claim_path@)),
{
    let t = s.insert_vc(birth_vc(issued, format, issued_at_ms));
    let ops = birth_openings(issued);
    lemma_insert_openings_keeps_vcs(t, ops);
    assert forall|i: int| 0 <= i < issued.openings@.len() implies landed_birth(
        s,
        issued,
        format,
        issued_at_ms,
    ).openings.contains_key((issued.credential.vc_uri@, #[trigger] issued.openings@[i].claim_path@)) by {
        law_insert_openings_lands_all(t, ops, i);
        assert(ops[i] == birth_opening(issued, i));
    }
}

} // verus!
