//! What the store operations promise taken together.

use vstd::prelude::*;

use crate::vc_store::in_memory::{lists_in_display_order, VcStoreView};
use crate::vc_store::types::StoredVc;
use crate::vc_store::types::{StoredVcView, VcMetadataView, VcOpeningView};

verus! {

/// A credential read back right after it was stored is the stored credential.
pub proof fn law_get_vc_after_insert_vc(s: VcStoreView, vc: StoredVcView)
    ensures
        s.insert_vc(vc).vcs.contains_key(vc.vc_uri),
        s.insert_vc(vc).vcs[vc.vc_uri] == vc,
{
}

/// Storing a credential changes nothing stored under any other URI, nor any
/// opening or metadata.
pub proof fn law_insert_vc_leaves_rest(s: VcStoreView, vc: StoredVcView, other: Seq<char>)
    requires
        other != vc.vc_uri,
    ensures
        s.insert_vc(vc).vcs.get(other) == s.vcs.get(other),
        s.insert_vc(vc).openings == s.openings,
        s.insert_vc(vc).metadata == s.metadata,
{
}

/// An opening read back right after it was stored is the stored opening; the
/// openings of other keys stay as they were.
pub proof fn law_get_opening_after_insert_opening(
    s: VcStoreView,
    op: VcOpeningView,
    other: (Seq<char>, Seq<char>),
)
    requires
        other != (op.vc_uri, op.claim_path),
    ensures
        s.insert_opening(op).openings.get((op.vc_uri, op.claim_path)) == Some(op),
        s.insert_opening(op).openings.get(other) == s.openings.get(other),
        s.insert_opening(op).vcs == s.vcs,
{
}

/// Recorded metadata is what is read back; other credentials' metadata stays.
pub proof fn law_get_metadata_after_set(
    s: VcStoreView,
    vc_uri: Seq<char>,
    md: VcMetadataView,
    other: Seq<char>,
)
    requires
        other != vc_uri,
    ensures
        s.set_metadata(vc_uri, md).metadata.get(vc_uri) == Some(md),
        s.set_metadata(vc_uri, md).metadata.get(other) == s.metadata.get(other),
        s.set_metadata(vc_uri, md).vcs == s.vcs,
{
}

/// After a delete nothing is left of the credential: no credential, no
/// metadata, no opening under its URI.
pub proof fn law_delete_removes_everything(s: VcStoreView, vc_uri: Seq<char>, claim_path: Seq<char>)
    ensures
        !s.delete_vc(vc_uri).vcs.contains_key(vc_uri),
        !s.delete_vc(vc_uri).metadata.contains_key(vc_uri),
        !s.delete_vc(vc_uri).openings.contains_key((vc_uri, claim_path)),
{
}

/// A delete touches no other credential, metadata or opening.
pub proof fn law_delete_is_scoped(
    s: VcStoreView,
    vc_uri: Seq<char>,
    other: Seq<char>,
    claim_path: Seq<char>,
)
    requires
        other != vc_uri,
    ensures
        s.delete_vc(vc_uri).vcs.get(other) == s.vcs.get(other),
        s.delete_vc(vc_uri).metadata.get(other) == s.metadata.get(other),
        s.delete_vc(vc_uri).openings.get((other, claim_path)) == s.openings.get(
            (other, claim_path),
        ),
{
    let k = (other, claim_path);
    let gone = Set::new(|x: (Seq<char>, Seq<char>)| x.0 == vc_uri);
    assert(!gone.contains(k));
}

/// Storing a batch of openings leaves the credentials as they were, and every
/// opening of the batch is stored afterwards; it is read back as given unless a
/// later opening of the batch has the same key.
pub proof fn law_insert_openings_lands_all(s: VcStoreView, ops: Seq<VcOpeningView>, i: int)
    requires
        0 <= i < ops.len(),
    ensures
        s.insert_openings(ops).vcs == s.vcs,
        s.insert_openings(ops).openings.contains_key((ops[i].vc_uri, ops[i].claim_path)),
        (forall|j: int|
            i < j < ops.len() ==> (#[trigger] ops[j].vc_uri, ops[j].claim_path) != (
            ops[i].vc_uri,
            ops[i].claim_path,
        )) ==> s.insert_openings(ops).openings[(ops[i].vc_uri, ops[i].claim_path)] == ops[i],
    decreases ops.len(),
{
    lemma_insert_openings_keeps_vcs(s, ops);
    if i < ops.len() - 1 {
        let front = ops.drop_last();
        assert(front[i] == ops[i]);
        law_insert_openings_lands_all(s, front, i);
        if forall|j: int|
            i < j < ops.len() ==> (#[trigger] ops[j].vc_uri, ops[j].claim_path) != (
            ops[i].vc_uri,
            ops[i].claim_path,
        ) {
            assert(front.len() == ops.len() - 1);
            assert forall|j: int| i < j < front.len() implies (
            #[trigger] front[j].vc_uri,
            front[j].claim_path,
        ) != (front[i].vc_uri, front[i].claim_path) by {
                assert(front[j] == ops[j]);
            }
            let last = ops[ops.len() - 1];
            assert((last.vc_uri, last.claim_path) != (ops[i].vc_uri, ops[i].claim_path));
        }
    }
}

/// Storing openings never touches the credentials.
pub proof fn lemma_insert_openings_keeps_vcs(s: VcStoreView, ops: Seq<VcOpeningView>)
    ensures
        s.insert_openings(ops).vcs == s.vcs,
        s.insert_openings(ops).metadata == s.metadata,
    decreases ops.len(),
{
    if ops.len() > 0 {
        lemma_insert_openings_keeps_vcs(s, ops.drop_last());
    }
}

/// A new store holds nothing; a credential without metadata is listed last
/// and starts from display order 0 when its metadata is first updated.
pub proof fn law_empty_store(vc_uri: Seq<char>, claim_path: Seq<char>)
    ensures
        !VcStoreView::empty().vcs.contains_key(vc_uri),
        !VcStoreView::empty().openings.contains_key((vc_uri, claim_path)),
        !VcStoreView::empty().metadata.contains_key(vc_uri),
        VcStoreView::empty().display_key(vc_uri) == u32::MAX,
        VcStoreView::empty().metadata_or_fresh(vc_uri).display_order == 0,
        VcStoreView::empty().metadata_or_fresh(vc_uri).vc_uri == vc_uri,
{
}

/// An update of a credential that has metadata starts from exactly the stored
/// metadata, every field kept; one without metadata starts from metadata under
/// its own URI with display order 0, never verified and without labels.
pub proof fn law_update_starts_from_stored_metadata(s: VcStoreView, vc_uri: Seq<char>)
    ensures
        s.metadata.contains_key(vc_uri) ==> s.metadata_or_fresh(vc_uri) == s.metadata[vc_uri],
        !s.metadata.contains_key(vc_uri) ==> {
            let m = s.metadata_or_fresh(vc_uri);
            &&& m.vc_uri == vc_uri
            &&& m.display_order == 0
            &&& m.last_verified_ms is None
            &&& m.last_verify_outcome is None
            &&& m.custom_labels.len() == 0
        },
{
}

/// Two updates in a row compose: the second starts from what the first
/// recorded.
pub proof fn law_update_sees_previous_update(s: VcStoreView, vc_uri: Seq<char>, md: VcMetadataView)
    ensures
        s.set_metadata(vc_uri, md).metadata_or_fresh(vc_uri) == md,
{
}

/// A credential with metadata is listed by its recorded display order; one
/// without metadata by the largest `u32`, after all others.
pub proof fn law_display_key_is_display_order(s: VcStoreView, vc_uri: Seq<char>)
    ensures
        s.metadata.contains_key(vc_uri) ==> s.display_key(vc_uri) == s.metadata[vc_uri].display_order,
        !s.metadata.contains_key(vc_uri) ==> s.display_key(vc_uri) == 0xffff_ffffu32,
{
}

/// In a listing, of two credentials with metadata the earlier one has the
/// smaller or equal display order, and a credential without metadata comes
/// before one with metadata only when that one's display order is the largest
/// `u32`.
pub proof fn law_listing_ascends_by_display_order(s: VcStoreView, l: Seq<StoredVc>, a: int, b: int)
    requires
        lists_in_display_order(s, l),
        0 <= a < b < l.len(),
    ensures
        s.metadata.contains_key(l[a].vc_uri@) && s.metadata.contains_key(l[b].vc_uri@) ==> s.metadata[l[a].vc_uri@].display_order
            <= s.metadata[l[b].vc_uri@].display_order,
        !s.metadata.contains_key(l[a].vc_uri@) && s.metadata.contains_key(l[b].vc_uri@) ==> s.metadata[l[b].vc_uri@].display_order
            == 0xffff_ffffu32,
        l[a].vc_uri@ != l[b].vc_uri@,
{
    law_display_key_is_display_order(s, l[a].vc_uri@);
    law_display_key_is_display_order(s, l[b].vc_uri@);
    assert(l[a].vc_uri@ != l[b].vc_uri@ && s.display_key(l[a].vc_uri@) <= s.display_key(
        l[b].vc_uri@,
    ));
}

} // verus!
