//! In-memory credential store: credentials keyed by URI, claim openings keyed
//! by (URI, claim path), and display metadata keyed by URI.

use vstd::prelude::*;

use crate::vc_store::keyed::{
    has_key, keys_distinct, lemma_to_map_at, lemma_to_map_empty, lemma_to_map_push,
    lemma_to_map_absent, lemma_to_map_remove, lemma_to_map_take_step, lemma_to_map_update,
    to_map,
};
use crate::vc_store::order::{is_permutation, is_stable_order, occurs, stable_order};
use crate::vc_store::types::{
    StoredVc, StoredVcView, VcMetadata, VcMetadataView, VcOpening, VcOpeningView,
};

verus! {

/// The contents of a credential store as three finite maps.
pub struct VcStoreView {
    pub vcs: Map<Seq<char>, StoredVcView>,
    pub openings: Map<(Seq<char>, Seq<char>), VcOpeningView>,
    pub metadata: Map<Seq<char>, VcMetadataView>,
}

impl VcStoreView {
    /// A store that holds nothing.
    pub open spec fn empty() -> VcStoreView {
        VcStoreView { vcs: Map::empty(), openings: Map::empty(), metadata: Map::empty() }
    }

    /// Storing `vc` under its URI, replacing any credential stored there.
    pub open spec fn insert_vc(self, vc: StoredVcView) -> VcStoreView {
        VcStoreView { vcs: self.vcs.insert(vc.vc_uri, vc), ..self }
    }

    /// Storing `op` under its (URI, claim path), replacing any opening there.
    pub open spec fn insert_opening(self, op: VcOpeningView) -> VcStoreView {
        VcStoreView { openings: self.openings.insert((op.vc_uri, op.claim_path), op), ..self }
    }

    /// Storing the openings one after another, first to last.
    pub open spec fn insert_openings(self, ops: Seq<VcOpeningView>) -> VcStoreView
        decreases ops.len(),
    {
        if ops.len() == 0 {
            self
        } else {
            self.insert_openings(ops.drop_last()).insert_opening(ops.last())
        }
    }

    /// The metadata recorded for `vc_uri`, or fresh metadata if there is none.
    pub open spec fn metadata_or_fresh(self, vc_uri: Seq<char>) -> VcMetadataView {
        if self.metadata.contains_key(vc_uri) {
            self.metadata[vc_uri]
        } else {
            VcMetadata::spec_fresh(vc_uri)
        }
    }

    /// Recording `md` as the metadata of `vc_uri`.
    pub open spec fn set_metadata(self, vc_uri: Seq<char>, md: VcMetadataView) -> VcStoreView {
        VcStoreView { metadata: self.metadata.insert(vc_uri, md), ..self }
    }

    /// Forgetting the credential `vc_uri`, its metadata and all its openings.
    pub open spec fn delete_vc(self, vc_uri: Seq<char>) -> VcStoreView {
        VcStoreView {
            vcs: self.vcs.remove(vc_uri),
            openings: self.openings.remove_keys(
                Set::new(|k: (Seq<char>, Seq<char>)| k.0 == vc_uri),
            ),
            metadata: self.metadata.remove(vc_uri),
        }
    }

    /// The key by which credentials are listed: the recorded display order,
    /// or the largest `u32` for a credential without metadata.
    pub open spec fn display_key(self, vc_uri: Seq<char>) -> u32 {
        if self.metadata.contains_key(vc_uri) {
            self.metadata[vc_uri].display_order
        } else {
            u32::MAX
        }
    }
}

/// The credential `vc_uri` occurs in the list `s`.
pub open spec fn listed(s: Seq<StoredVc>, vc_uri: Seq<char>) -> bool {
    exists|k: int| 0 <= k < s.len() && #[trigger] s[k].vc_uri@ == vc_uri
}

/// `s` lists the credentials of `store`, each once, ascending by display key.
pub open spec fn lists_in_display_order(store: VcStoreView, s: Seq<StoredVc>) -> bool {
    &&& forall|k: int|
        0 <= k < s.len() ==> store.vcs.contains_key(#[trigger] s[k].vc_uri@) && store.vcs[s[k].vc_uri@]
            == s[k]@
    &&& forall|a: int, b: int|
        0 <= a < b < s.len() ==> #[trigger] s[a].vc_uri@ != #[trigger] s[b].vc_uri@
            && store.display_key(s[a].vc_uri@) <= store.display_key(s[b].vc_uri@)
    &&& forall|u: Seq<char>| store.vcs.contains_key(u) ==> #[trigger] listed(s, u)
}

/// An in-memory credential store.
#[derive(Debug)]
pub struct InMemoryVcStore {
    vcs: Vec<StoredVc>,
    openings: Vec<VcOpening>,
    metadata: Vec<(String, VcMetadata)>,
}

impl InMemoryVcStore {
    spec fn vc_rows(self) -> Seq<(Seq<char>, StoredVcView)> {
        self.vcs@.map_values(|v: StoredVc| (v.vc_uri@, v@))
    }

    spec fn opening_rows(self) -> Seq<((Seq<char>, Seq<char>), VcOpeningView)> {
        self.openings@.map_values(|o: VcOpening| ((o.vc_uri@, o.claim_path@), o@))
    }

    spec fn metadata_rows(self) -> Seq<(Seq<char>, VcMetadataView)> {
        self.metadata@.map_values(|p: (String, VcMetadata)| (p.0@, p.1@))
    }

    /// No credential URI, opening key or metadata URI is stored twice.
    pub closed spec fn wf(self) -> bool {
        &&& keys_distinct(self.vc_rows())
        &&& keys_distinct(self.opening_rows())
        &&& keys_distinct(self.metadata_rows())
    }
}

impl View for InMemoryVcStore {
    type V = VcStoreView;

    closed spec fn view(&self) -> VcStoreView {
        VcStoreView {
            vcs: to_map(self.vc_rows()),
            openings: to_map(self.opening_rows()),
            metadata: to_map(self.metadata_rows()),
        }
    }
}

impl Default for InMemoryVcStore {
    fn default() -> (r: Self)
        ensures
            r.wf(),
            r@ == VcStoreView::empty(),
    {
        InMemoryVcStore::new()
    }
}

impl InMemoryVcStore {
    /// An empty store.
    pub fn new() -> (r: Self)
        ensures
            r.wf(),
            r@ == VcStoreView::empty(),
    {
        let r = InMemoryVcStore { vcs: Vec::new(), openings: Vec::new(), metadata: Vec::new() };
        proof {
            lemma_to_map_empty::<Seq<char>, StoredVcView>();
            lemma_to_map_empty::<(Seq<char>, Seq<char>), VcOpeningView>();
            lemma_to_map_empty::<Seq<char>, VcMetadataView>();
            assert(r.vc_rows() =~= Seq::empty());
            assert(r.opening_rows() =~= Seq::empty());
            assert(r.metadata_rows() =~= Seq::empty());
        }
        r
    }

    fn find_vc(&self, vc_uri: &String) -> (r: Option<usize>)
        requires
            self.wf(),
        ensures
            match r {
                Some(i) => i < self.vcs@.len() && self.vcs@[i as int].vc_uri@ == vc_uri@,
                None => !has_key(self.vc_rows(), vc_uri@),
            },
    {
        let mut i: usize = 0;
        while i < self.vcs.len()
            invariant
                i <= self.vcs@.len(),
                forall|j: int| 0 <= j < i ==> self.vcs@[j].vc_uri@ != vc_uri@,
            decreases self.vcs@.len() - i,
        {
            if self.vcs[i].vc_uri == *vc_uri {
                return Some(i);
            }
            i = i + 1;
        }
        proof {
            if has_key(self.vc_rows(), vc_uri@) {
                let j = choose|j: int| 0 <= j < self.vc_rows().len() && #[trigger] self.vc_rows()[j].0 == vc_uri@;
                assert(self.vc_rows()[j].0 == self.vcs@[j].vc_uri@);
            }
        }
        None
    }

    fn find_opening(&self, vc_uri: &String, claim_path: &String) -> (r: Option<usize>)
        requires
            self.wf(),
        ensures
            match r {
                Some(i) => i < self.openings@.len() && self.openings@[i as int].vc_uri@ == vc_uri@
                    && self.openings@[i as int].claim_path@ == claim_path@,
                None => !has_key(self.opening_rows(), (vc_uri@, claim_path@)),
            },
    {
        let mut i: usize = 0;
        while i < self.openings.len()
            invariant
                i <= self.openings@.len(),
                forall|j: int|
                    0 <= j < i ==> (self.openings@[j].vc_uri@, self.openings@[j].claim_path@) != (
                    vc_uri@,
                    claim_path@,
                ),
            decreases self.openings@.len() - i,
        {
            if self.openings[i].vc_uri == *vc_uri && self.openings[i].claim_path == *claim_path {
                return Some(i);
            }
            i = i + 1;
        }
        proof {
            if has_key(self.opening_rows(), (vc_uri@, claim_path@)) {
                let j = choose|j: int|
                    0 <= j < self.opening_rows().len() && #[trigger] self.opening_rows()[j].0 == (
                    vc_uri@,
                    claim_path@,
                );
                assert(self.opening_rows()[j].0 == (
                    self.openings@[j].vc_uri@,
                    self.openings@[j].claim_path@,
                ));
            }
        }
        None
    }

    fn find_metadata(&self, vc_uri: &String) -> (r: Option<usize>)
        requires
            self.wf(),
        ensures
            match r {
                Some(i) => i < self.metadata@.len() && self.metadata@[i as int].0@ == vc_uri@,
                None => !has_key(self.metadata_rows(), vc_uri@),
            },
    {
        let mut i: usize = 0;
        while i < self.metadata.len()
            invariant
                i <= self.metadata@.len(),
                forall|j: int| 0 <= j < i ==> self.metadata@[j].0@ != vc_uri@,
            decreases self.metadata@.len() - i,
        {
            if self.metadata[i].0 == *vc_uri {
                return Some(i);
            }
            i = i + 1;
        }
        proof {
            if has_key(self.metadata_rows(), vc_uri@) {
                let j = choose|j: int|
                    0 <= j < self.metadata_rows().len() && #[trigger] self.metadata_rows()[j].0
                        == vc_uri@;
                assert(self.metadata_rows()[j].0 == self.metadata@[j].0@);
            }
        }
        None
    }

    /// Stores `vc` under its URI, replacing any credential stored there.
    pub fn insert_vc(&mut self, vc: &StoredVc)
        requires
            old(self).wf(),
        ensures
            final(self).wf(),
            final(self)@ == old(self)@.insert_vc(vc@),
    {
        let ghost rows = self.vc_rows();
        let copy = vc.clone();
        match self.find_vc(&vc.vc_uri) {
            Some(i) => {
                self.vcs.set(i, copy);
                proof {
                    assert(self.vc_rows() =~= rows.update(i as int, (vc.vc_uri@, vc@)));
                    lemma_to_map_update(rows, i as int, (vc.vc_uri@, vc@));
                }
            },
            None => {
                self.vcs.push(copy);
                proof {
                    assert(self.vc_rows() =~= rows.push((vc.vc_uri@, vc@)));
                    lemma_to_map_push(rows, (vc.vc_uri@, vc@));
                }
            },
        }
    }

    /// The credential stored under `vc_uri`, if any.
    pub fn get_vc(&self, vc_uri: &str) -> (r: Option<StoredVc>)
        requires
            self.wf(),
        ensures
            match r {
                Some(v) => self@.vcs.contains_key(vc_uri@) && v@ == self@.vcs[vc_uri@],
                None => !self@.vcs.contains_key(vc_uri@),
            },
    {
        let key = vc_uri.to_owned();
        match self.find_vc(&key) {
            Some(i) => {
                proof {
                    lemma_to_map_at(self.vc_rows(), i as int);
                }
                Some(self.vcs[i].clone())
            },
            None => None,
        }
    }

    /// Stores `op` under its (URI, claim path), replacing any opening there.
    pub fn insert_opening(&mut self, op: &VcOpening)
        requires
            old(self).wf(),
        ensures
            final(self).wf(),
            final(self)@ == old(self)@.insert_opening(op@),
    {
        let ghost rows = self.opening_rows();
        let copy = op.clone();
        let ghost row = ((op.vc_uri@, op.claim_path@), op@);
        match self.find_opening(&op.vc_uri, &op.claim_path) {
            Some(i) => {
                self.openings.set(i, copy);
                proof {
                    assert(self.opening_rows() =~= rows.update(i as int, row));
                    lemma_to_map_update(rows, i as int, row);
                }
            },
            None => {
                self.openings.push(copy);
                proof {
                    assert(self.opening_rows() =~= rows.push(row));
                    lemma_to_map_push(rows, row);
                }
            },
        }
    }

    /// The opening stored under (`vc_uri`, `claim_path`), if any.
    pub fn get_opening(&self, vc_uri: &str, claim_path: &str) -> (r: Option<VcOpening>)
        requires
            self.wf(),
        ensures
            match r {
                Some(o) => self@.openings.contains_key((vc_uri@, claim_path@)) && o@
                    == self@.openings[(vc_uri@, claim_path@)],
                None => !self@.openings.contains_key((vc_uri@, claim_path@)),
            },
    {
        let uri = vc_uri.to_owned();
        let path = claim_path.to_owned();
        match self.find_opening(&uri, &path) {
            Some(i) => {
                proof {
                    lemma_to_map_at(self.opening_rows(), i as int);
                }
                Some(self.openings[i].clone())
            },
            None => None,
        }
    }

    /// The metadata recorded for `vc_uri`, if any.
    pub fn get_metadata(&self, vc_uri: &str) -> (r: Option<VcMetadata>)
        requires
            self.wf(),
        ensures
            match r {
                Some(m) => self@.metadata.contains_key(vc_uri@) && m@ == self@.metadata[vc_uri@],
                None => !self@.metadata.contains_key(vc_uri@),
            },
    {
        let key = vc_uri.to_owned();
        match self.find_metadata(&key) {
            Some(i) => {
                proof {
                    lemma_to_map_at(self.metadata_rows(), i as int);
                }
                Some(self.metadata[i].1.clone())
            },
            None => None,
        }
    }

    /// Replaces the metadata of `vc_uri` with what `update` makes of it; a
    /// credential without metadata starts from fresh metadata.
    pub fn update_metadata<F: FnOnce(VcMetadata) -> VcMetadata>(&mut self, vc_uri: &str, update: F)
        requires
            old(self).wf(),
            forall|m: VcMetadata| #[trigger] update.requires((m,)),
        ensures
            final(self).wf(),
            exists|before: VcMetadata, after: VcMetadata|
                {
                    &&& before@ == old(self)@.metadata_or_fresh(vc_uri@)
                    &&& #[trigger] update.ensures((before,), after)
                    &&& final(self)@ == old(self)@.set_metadata(vc_uri@, after@)
                },
    {
        let key = vc_uri.to_owned();
        let ghost rows = self.metadata_rows();
        match self.find_metadata(&key) {
            Some(i) => {
                proof {
                    lemma_to_map_at(rows, i as int);
                }
                let before = self.metadata[i].1.clone();
                let ghost b = before;
                let after = update(before);
                let ghost a = after;
                let ghost row = (key@, after@);
                self.metadata.set(i, (key, after));
                proof {
                    assert(self.metadata_rows() =~= rows.update(i as int, row));
                    lemma_to_map_update(rows, i as int, row);
                    assert(update.ensures((b,), a));
                }
            },
            None => {
                let before = VcMetadata::fresh(vc_uri);
                let ghost b = before;
                let after = update(before);
                let ghost a = after;
                let ghost row = (key@, after@);
                self.metadata.push((key, after));
                proof {
                    assert(self.metadata_rows() =~= rows.push(row));
                    lemma_to_map_push(rows, row);
                    assert(update.ensures((b,), a));
                }
            },
        }
    }

    fn display_key_of(&self, vc_uri: &String) -> (r: u32)
        requires
            self.wf(),
        ensures
            r == self@.display_key(vc_uri@),
    {
        match self.find_metadata(vc_uri) {
            Some(i) => {
                proof {
                    lemma_to_map_at(self.metadata_rows(), i as int);
                }
                self.metadata[i].1.display_order
            },
            None => {
                proof {
                    lemma_to_map_absent(self.metadata_rows(), vc_uri@);
                }
                u32::MAX
            },
        }
    }

    /// All stored credentials, ascending by display order; credentials
    /// without metadata come last.
    pub fn list_ordered(&self) -> (r: Vec<StoredVc>)
        requires
            self.wf(),
        ensures
            lists_in_display_order(self@, r@),
    {
        let n = self.vcs.len();
        let mut keys: Vec<u32> = Vec::new();
        for i in 0..n
            invariant
                n == self.vcs@.len(),
                self.wf(),
                keys@.len() == i,
                forall|j: int| 0 <= j < i ==> #[trigger] keys@[j] == self@.display_key(self.vcs@[j].vc_uri@),
        {
            let key = self.display_key_of(&self.vcs[i].vc_uri);
            keys.push(key);
        }
        let perm = stable_order(&keys);
        let mut out: Vec<StoredVc> = Vec::new();
        for k in 0..n
            invariant
                n == self.vcs@.len(),
                n == keys@.len(),
                is_permutation(perm@, n as nat),
                out@.len() == k,
                forall|j: int| 0 <= j < k ==> #[trigger] out@[j]@ == self.vcs@[perm@[j] as int]@,
        {
            let v = self.vcs[perm[k]].clone();
            out.push(v);
        }
        proof {
            let rows = self.vc_rows();
            assert forall|k: int| 0 <= k < out@.len() implies self@.vcs.contains_key(
                #[trigger] out@[k].vc_uri@,
            ) && self@.vcs[out@[k].vc_uri@] == out@[k]@ by {
                let j = perm@[k] as int;
                assert(rows[j] == (self.vcs@[j].vc_uri@, self.vcs@[j]@));
                assert(out@[k]@ == self.vcs@[j]@);
                assert(out@[k].vc_uri@ == self.vcs@[j].vc_uri@);
                lemma_to_map_at(rows, j);
            }
            assert forall|a: int, b: int| 0 <= a < b < out@.len() implies #[trigger] out@[a].vc_uri@
                != #[trigger] out@[b].vc_uri@ && self@.display_key(out@[a].vc_uri@)
                <= self@.display_key(out@[b].vc_uri@) by {
                assert(perm@[a] != perm@[b]);
                assert(rows[perm@[a] as int].0 != rows[perm@[b] as int].0);
                assert(keys@[perm@[a] as int] <= keys@[perm@[b] as int]);
            }
            assert forall|u: Seq<char>| self@.vcs.contains_key(u) implies #[trigger] listed(out@, u) by {
                let j = choose|j: int| 0 <= j < rows.len() && #[trigger] rows[j].0 == u;
                assert(occurs(perm@, j));
                let k = choose|k: int| 0 <= k < perm@.len() && #[trigger] perm@[k] == j;
                assert(out@[k].vc_uri@ == u);
            }
        }
        out
    }

    /// Forgets the credential `vc_uri`, its metadata and all its openings.
    pub fn delete_vc(&mut self, vc_uri: &str)
        requires
            old(self).wf(),
        ensures
            final(self).wf(),
            final(self)@ == old(self)@.delete_vc(vc_uri@),
    {
        let key = vc_uri.to_owned();
        let ghost start = self@;
        let ghost vrows = self.vc_rows();
        match self.find_vc(&key) {
            Some(i) => {
                self.vcs.remove(i);
                proof {
                    assert(self.vc_rows() =~= vrows.remove(i as int));
                    lemma_to_map_remove(vrows, i as int);
                }
            },
            None => {
                proof {
                    lemma_to_map_absent(vrows, key@);
                }
            },
        }
        let ghost mrows = self.metadata_rows();
        match self.find_metadata(&key) {
            Some(i) => {
                self.metadata.remove(i);
                proof {
                    assert(self.metadata_rows() =~= mrows.remove(i as int));
                    lemma_to_map_remove(mrows, i as int);
                }
            },
            None => {
                proof {
                    lemma_to_map_absent(mrows, key@);
                }
            },
        }
        let ghost orows = self.opening_rows();
        let ghost gone = Set::new(|k: (Seq<char>, Seq<char>)| k.0 == vc_uri@);
        let mut kept: Vec<VcOpening> = Vec::new();
        let n = self.openings.len();
        for i in 0..n
            invariant
                n == self.openings@.len(),
                orows == self.opening_rows(),
                keys_distinct(orows),
                key@ == vc_uri@,
                gone == Set::new(|k: (Seq<char>, Seq<char>)| k.0 == vc_uri@),
                keys_distinct(kept@.map_values(|o: VcOpening| ((o.vc_uri@, o.claim_path@), o@))),
                to_map(kept@.map_values(|o: VcOpening| ((o.vc_uri@, o.claim_path@), o@))) == to_map(
                    orows.take(i as int),
                ).remove_keys(gone),
        {
            let ghost krows = kept@.map_values(|o: VcOpening| ((o.vc_uri@, o.claim_path@), o@));
            proof {
                lemma_to_map_take_step(orows, i as int);
            }
            if self.openings[i].vc_uri != key {
                let copy = self.openings[i].clone();
                kept.push(copy);
                proof {
                    let row = orows[i as int];
                    assert(kept@.map_values(|o: VcOpening| ((o.vc_uri@, o.claim_path@), o@)) =~= krows.push(row));
                    if has_key(krows, row.0) {
                        assert(to_map(krows).contains_key(row.0));
                    }
                    lemma_to_map_push(krows, row);
                    assert(to_map(krows.push(row)) =~= to_map(orows.take(i + 1)).remove_keys(gone));
                }
            } else {
                proof {
                    assert(to_map(krows) =~= to_map(orows.take(i + 1)).remove_keys(gone));
                }
            }
        }
        self.openings = kept;
        proof {
            assert(orows.take(n as int) =~= orows);
            assert(self@ =~= start.delete_vc(vc_uri@));
        }
    }

    /// Stores `vc` and then each of `openings`, first to last.
    pub fn insert_vc_with_openings(&mut self, vc: &StoredVc, openings: &[VcOpening])
        requires
            old(self).wf(),
        ensures
            final(self).wf(),
            final(self)@ == old(self)@.insert_vc(vc@).insert_openings(
                openings@.map_values(|o: VcOpening| o@),
            ),
    {
        let ghost start = self@;
        let ghost ops = openings@.map_values(|o: VcOpening| o@);
        self.insert_vc(vc);
        let n = openings.len();
        for i in 0..n
            invariant
                n == openings@.len(),
                ops == openings@.map_values(|o: VcOpening| o@),
                self.wf(),
                self@ == start.insert_vc(vc@).insert_openings(ops.take(i as int)),
        {
            self.insert_opening(&openings[i]);
            proof {
                assert(ops.take(i + 1).drop_last() =~= ops.take(i as int));
            }
        }
        proof {
            assert(ops.take(n as int) =~= ops);
        }
    }
}

} // verus!
