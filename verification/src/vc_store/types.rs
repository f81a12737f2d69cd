use vstd::prelude::*;

use crate::text::{string_pairs_view, clone_bytes};

verus! {

/// Persisted credential envelope. `body` holds the canonical signed bytes the
/// issuer returned; `proof` holds a detached proof, empty when the proof is
/// embedded in `body`.
#[derive(Debug)]
pub struct StoredVc {
    pub vc_uri: String,
    pub issuer_did: String,
    pub holder_did: String,
    pub format: String,
    pub body: Vec<u8>,
    pub proof: Vec<u8>,
    pub issued_at_ms: u64,
}

/// Mathematical value of a [`StoredVc`].
pub struct StoredVcView {
    pub vc_uri: Seq<char>,
    pub issuer_did: Seq<char>,
    pub holder_did: Seq<char>,
    pub format: Seq<char>,
    pub body: Seq<u8>,
    pub proof: Seq<u8>,
    pub issued_at_ms: u64,
}

impl View for StoredVc {
    type V = StoredVcView;

    open spec fn view(&self) -> StoredVcView {
        StoredVcView {
            vc_uri: self.vc_uri@,
            issuer_did: self.issuer_did@,
            holder_did: self.holder_did@,
            format: self.format@,
            body: self.body@,
            proof: self.proof@,
            issued_at_ms: self.issued_at_ms,
        }
    }
}

impl Clone for StoredVc {
    fn clone(&self) -> (r: Self)
        ensures
            r@ == self@,
    {
        StoredVc {
            vc_uri: self.vc_uri.clone(),
            issuer_did: self.issuer_did.clone(),
            holder_did: self.holder_did.clone(),
            format: self.format.clone(),
            body: clone_bytes(&self.body),
            proof: clone_bytes(&self.proof),
            issued_at_ms: self.issued_at_ms,
        }
    }
}

/// One private claim's value and opening randomness, keyed by a
/// JSON-Pointer-style claim path such as `/credentialSubject/dateOfBirth`.
#[derive(Debug)]
pub struct VcOpening {
    pub vc_uri: String,
    pub claim_path: String,
    pub plaintext: Vec<u8>,
    pub opening: Vec<u8>,
}

/// Mathematical value of a [`VcOpening`].
pub struct VcOpeningView {
    pub vc_uri: Seq<char>,
    pub claim_path: Seq<char>,
    pub plaintext: Seq<u8>,
    pub opening: Seq<u8>,
}

impl View for VcOpening {
    type V = VcOpeningView;

    open spec fn view(&self) -> VcOpeningView {
        VcOpeningView {
            vc_uri: self.vc_uri@,
            claim_path: self.claim_path@,
            plaintext: self.plaintext@,
            opening: self.opening@,
        }
    }
}

impl Clone for VcOpening {
    fn clone(&self) -> (r: Self)
        ensures
            r@ == self@,
    {
        VcOpening {
            vc_uri: self.vc_uri.clone(),
            claim_path: self.claim_path.clone(),
            plaintext: clone_bytes(&self.plaintext),
            opening: clone_bytes(&self.opening),
        }
    }
}

/// Display and verification data of a credential; it changes over the
/// credential's lifetime.
#[derive(Debug)]
pub struct VcMetadata {
    pub vc_uri: String,
    pub display_order: u32,
    pub last_verified_ms: Option<u64>,
    pub last_verify_outcome: Option<String>,
    pub custom_labels: Vec<(String, String)>,
}

/// Mathematical value of a [`VcMetadata`].
pub struct VcMetadataView {
    pub vc_uri: Seq<char>,
    pub display_order: u32,
    pub last_verified_ms: Option<u64>,
    pub last_verify_outcome: Option<Seq<char>>,
    pub custom_labels: Seq<(Seq<char>, Seq<char>)>,
}

impl View for VcMetadata {
    type V = VcMetadataView;

    open spec fn view(&self) -> VcMetadataView {
        VcMetadataView {
            vc_uri: self.vc_uri@,
            display_order: self.display_order,
            last_verified_ms: self.last_verified_ms,
            last_verify_outcome: match self.last_verify_outcome {
                Some(s) => Some(s@),
                None => None,
            },
            custom_labels: string_pairs_view(self.custom_labels@),
        }
    }
}

impl VcMetadata {
    /// The metadata a credential has before anything was recorded for it:
    /// display order 0, never verified, no labels.
    pub open spec fn spec_fresh(vc_uri: Seq<char>) -> VcMetadataView {
        VcMetadataView {
            vc_uri,
            display_order: 0,
            last_verified_ms: None,
            last_verify_outcome: None,
            custom_labels: Seq::empty(),
        }
    }

    /// Fresh metadata for `vc_uri`.
    pub fn fresh(vc_uri: &str) -> (r: VcMetadata)
        ensures
            r@ == Self::spec_fresh(vc_uri@),
    {
        let r = VcMetadata {
            vc_uri: vc_uri.to_owned(),
            display_order: 0,
            last_verified_ms: None,
            last_verify_outcome: None,
            custom_labels: Vec::new(),
        };
        assert(r@.custom_labels =~= Seq::<(Seq<char>, Seq<char>)>::empty());
        r
    }
}

impl Default for VcMetadata {
    fn default() -> (r: Self)
        ensures
            r@ == Self::spec_fresh(Seq::empty()),
    {
        let r = VcMetadata {
            vc_uri: String::new(),
            display_order: 0,
            last_verified_ms: None,
            last_verify_outcome: None,
            custom_labels: Vec::new(),
        };
        assert(r@.custom_labels =~= Seq::<(Seq<char>, Seq<char>)>::empty());
        r
    }
}

impl Clone for VcMetadata {
    fn clone(&self) -> (r: Self)
        ensures
            r@ == self@,
    {
        let outcome = match &self.last_verify_outcome {
            Some(s) => Some(s.clone()),
            None => None,
        };
        let mut labels: Vec<(String, String)> = Vec::new();
        let n = self.custom_labels.len();
        let mut i: usize = 0;
        while i < n
            invariant
                n == self.custom_labels.len(),
                i <= n,
                labels@.len() == i,
                string_pairs_view(labels@) =~= string_pairs_view(self.custom_labels@).take(i as int),
            decreases n - i,
        {
            let ghost prev = labels@;
            let a = self.custom_labels[i].0.clone();
            let b = self.custom_labels[i].1.clone();
            labels.push((a, b));
            assert(labels@ == prev.push((a, b)));
            assert(a@ == self.custom_labels@[i as int].0@);
            i = i + 1;
            assert forall|j: int| 0 <= j < i implies #[trigger] string_pairs_view(labels@)[j]
                == string_pairs_view(self.custom_labels@)[j] by {
                if j < i - 1 {
                    assert(string_pairs_view(prev)[j] == string_pairs_view(self.custom_labels@).take(i - 1)[j]);
                }
            }
            assert(string_pairs_view(labels@) =~= string_pairs_view(self.custom_labels@).take(i as int));
        }
        let r = VcMetadata {
            vc_uri: self.vc_uri.clone(),
            display_order: self.display_order,
            last_verified_ms: self.last_verified_ms,
            last_verify_outcome: outcome,
            custom_labels: labels,
        };
        assert(string_pairs_view(self.custom_labels@).take(n as int) =~= string_pairs_view(self.custom_labels@));
        r
    }
}

} // verus!
