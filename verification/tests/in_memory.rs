use wallet_core::vc_store::in_memory::InMemoryVcStore;
use wallet_core::vc_store::{StoredVc, VcMetadata, VcOpening};

fn sample_vc() -> StoredVc {
    StoredVc {
        vc_uri: "urn:uuid:abc-123".into(),
        issuer_did: "did:midnight:issuer".into(),
        holder_did: "did:midnight:alice".into(),
        format: "midnight_compact_vc".into(),
        body: vec![1, 2, 3, 4],
        proof: vec![],
        issued_at_ms: 1_000_000,
    }
}

fn with_uri(uri: &str) -> StoredVc {
    StoredVc { vc_uri: uri.into(), proof: vec![], ..sample_vc() }
}

fn opening(uri: &str, path: &str, plaintext: Vec<u8>, opening: Vec<u8>) -> VcOpening {
    VcOpening { vc_uri: uri.into(), claim_path: path.into(), plaintext, opening }
}

#[test]
fn in_memory_insert_then_get_round_trips() {
    let mut store = InMemoryVcStore::new();
    let vc = sample_vc();
    store.insert_vc(&vc);
    let back = store.get_vc(&vc.vc_uri).unwrap();
    assert_eq!(back.vc_uri, vc.vc_uri);
    assert_eq!(back.body, vc.body);
}

#[test]
fn in_memory_get_missing_returns_none() {
    let store = InMemoryVcStore::new();
    assert!(store.get_vc("urn:uuid:nope").is_none());
}

#[test]
fn in_memory_opening_round_trips() {
    let mut store = InMemoryVcStore::new();
    let op = VcOpening {
        vc_uri: "urn:uuid:abc".into(),
        claim_path: "/credentialSubject/dateOfBirth".into(),
        plaintext: b"1985-01-01".to_vec(),
        opening: vec![9, 8, 7],
    };
    store.insert_opening(&op);
    let back = store
        .get_opening("urn:uuid:abc", "/credentialSubject/dateOfBirth")
        .unwrap();
    assert_eq!(back.plaintext, op.plaintext);
    assert_eq!(back.opening, op.opening);
}

#[test]
fn in_memory_metadata_update_then_read() {
    let mut store = InMemoryVcStore::new();
    let vc = sample_vc();
    store.insert_vc(&vc);
    store.update_metadata(&vc.vc_uri, |mut m: VcMetadata| {
        m.display_order = 3;
        m.last_verified_ms = Some(42);
        m.last_verify_outcome = Some("Valid".into());
        m
    });
    let md = store.get_metadata(&vc.vc_uri).unwrap();
    assert_eq!(md.display_order, 3);
    assert_eq!(md.last_verified_ms, Some(42));
}

#[test]
fn in_memory_list_ordered_returns_by_display_order() {
    let mut store = InMemoryVcStore::new();
    for (i, uri) in ["urn:b", "urn:a", "urn:c"].iter().enumerate() {
        store.insert_vc(&StoredVc {
            vc_uri: (*uri).into(),
            issuer_did: "did:midnight:i".into(),
            holder_did: "did:midnight:h".into(),
            format: "f".into(),
            body: vec![i as u8],
            proof: vec![],
            issued_at_ms: i as u64,
        });
        let order = match *uri {
            "urn:b" => 0u32,
            "urn:c" => 1,
            "urn:a" => 2,
            _ => unreachable!(),
        };
        store.update_metadata(uri, |mut m: VcMetadata| {
            m.display_order = order;
            m
        });
    }
    let list = store.list_ordered();
    let uris: Vec<&str> = list.iter().map(|v| v.vc_uri.as_str()).collect();
    assert_eq!(uris, vec!["urn:b", "urn:c", "urn:a"]);
}

#[test]
fn in_memory_delete_removes_vc_openings_and_metadata() {
    let mut store = InMemoryVcStore::new();
    let vc = sample_vc();
    store.insert_vc(&vc);
    store.insert_opening(&opening(&vc.vc_uri, "/x", vec![1], vec![2]));
    store.update_metadata(&vc.vc_uri, |mut m: VcMetadata| {
        m.display_order = 1;
        m
    });

    store.delete_vc(&vc.vc_uri);

    assert!(store.get_vc(&vc.vc_uri).is_none());
    assert!(store.get_opening(&vc.vc_uri, "/x").is_none());
    assert!(store.get_metadata(&vc.vc_uri).is_none());
}

#[test]
fn in_memory_insert_vc_with_openings_lands_atomically() {
    let mut store = InMemoryVcStore::new();
    let vc = sample_vc();
    let openings = vec![
        opening(&vc.vc_uri, "/a", vec![1], vec![2]),
        opening(&vc.vc_uri, "/b", vec![3], vec![4]),
    ];
    store.insert_vc_with_openings(&vc, &openings);
    assert!(store.get_vc(&vc.vc_uri).is_some());
    assert!(store.get_opening(&vc.vc_uri, "/a").is_some());
    assert!(store.get_opening(&vc.vc_uri, "/b").is_some());
}

#[test]
fn delete_scoped_to_vc_uri_prefix() {
    // Two credentials, both with openings: deleting one keeps the other's.
    let mut store = InMemoryVcStore::new();
    let vc_a = with_uri("urn:a");
    let vc_b = with_uri("urn:b");
    store.insert_vc(&vc_a);
    store.insert_vc(&vc_b);
    store.insert_opening(&opening("urn:a", "/x", vec![], vec![]));
    store.insert_opening(&opening("urn:b", "/x", vec![], vec![]));
    store.delete_vc("urn:a");
    assert!(store.get_vc("urn:a").is_none());
    assert!(store.get_vc("urn:b").is_some());
    assert!(store.get_opening("urn:a", "/x").is_none());
    assert!(store.get_opening("urn:b", "/x").is_some());
}

#[test]
fn insert_vc_replaces_credential_under_same_uri() {
    let mut store = InMemoryVcStore::new();
    let vc = sample_vc();
    store.insert_vc(&vc);
    let newer = StoredVc { body: vec![9, 9], issued_at_ms: 2_000_000, ..sample_vc() };
    store.insert_vc(&newer);
    let back = store.get_vc(&vc.vc_uri).unwrap();
    assert_eq!(back.body, vec![9, 9]);
    assert_eq!(back.issued_at_ms, 2_000_000);
    assert_eq!(store.list_ordered().len(), 1);
}

#[test]
fn insert_vc_leaves_other_credentials() {
    let mut store = InMemoryVcStore::new();
    store.insert_vc(&with_uri("urn:a"));
    store.insert_vc(&with_uri("urn:b"));
    assert_eq!(store.get_vc("urn:a").unwrap().vc_uri, "urn:a");
    assert_eq!(store.get_vc("urn:b").unwrap().vc_uri, "urn:b");
}

#[test]
fn opening_replaced_under_same_key() {
    let mut store = InMemoryVcStore::new();
    store.insert_opening(&opening("urn:a", "/x", vec![1], vec![1]));
    store.insert_opening(&opening("urn:a", "/x", vec![2], vec![3]));
    let back = store.get_opening("urn:a", "/x").unwrap();
    assert_eq!(back.plaintext, vec![2]);
    assert_eq!(back.opening, vec![3]);
    assert!(store.get_opening("urn:a", "/y").is_none());
}

#[test]
fn update_metadata_starts_from_fresh_metadata() {
    let mut store = InMemoryVcStore::new();
    let mut seen: Option<VcMetadata> = None;
    store.update_metadata("urn:a", |m: VcMetadata| {
        seen = Some(m.clone());
        m
    });
    let seen = seen.unwrap();
    assert_eq!(seen.vc_uri, "urn:a");
    assert_eq!(seen.display_order, 0);
    assert_eq!(seen.last_verified_ms, None);
    assert_eq!(seen.last_verify_outcome, None);
    assert!(seen.custom_labels.is_empty());
    let md = store.get_metadata("urn:a").unwrap();
    assert_eq!(md.vc_uri, "urn:a");
}

#[test]
fn update_metadata_sees_previous_metadata() {
    let mut store = InMemoryVcStore::new();
    store.update_metadata("urn:a", |mut m: VcMetadata| {
        m.custom_labels.push(("color".into(), "blue".into()));
        m.display_order = 7;
        m
    });
    store.update_metadata("urn:a", |mut m: VcMetadata| {
        m.display_order += 1;
        m
    });
    let md = store.get_metadata("urn:a").unwrap();
    assert_eq!(md.display_order, 8);
    assert_eq!(md.custom_labels, vec![("color".to_string(), "blue".to_string())]);
}

#[test]
fn list_ordered_puts_credentials_without_metadata_last() {
    let mut store = InMemoryVcStore::new();
    store.insert_vc(&with_uri("urn:none"));
    store.insert_vc(&with_uri("urn:late"));
    store.insert_vc(&with_uri("urn:early"));
    store.update_metadata("urn:late", |mut m: VcMetadata| {
        m.display_order = 5;
        m
    });
    store.update_metadata("urn:early", |mut m: VcMetadata| {
        m.display_order = 1;
        m
    });
    let uris: Vec<String> = store.list_ordered().into_iter().map(|v| v.vc_uri).collect();
    assert_eq!(uris, vec!["urn:early", "urn:late", "urn:none"]);
}

#[test]
fn list_ordered_keeps_insertion_order_among_equal_keys() {
    let mut store = InMemoryVcStore::new();
    store.insert_vc(&with_uri("urn:1"));
    store.insert_vc(&with_uri("urn:2"));
    store.insert_vc(&with_uri("urn:3"));
    let uris: Vec<String> = store.list_ordered().into_iter().map(|v| v.vc_uri).collect();
    assert_eq!(uris, vec!["urn:1", "urn:2", "urn:3"]);
}

#[test]
fn list_ordered_of_empty_store_is_empty() {
    let store = InMemoryVcStore::new();
    assert!(store.list_ordered().is_empty());
}

#[test]
fn delete_of_missing_credential_changes_nothing() {
    let mut store = InMemoryVcStore::new();
    store.insert_vc(&with_uri("urn:a"));
    store.insert_opening(&opening("urn:a", "/x", vec![1], vec![2]));
    store.delete_vc("urn:zzz");
    assert!(store.get_vc("urn:a").is_some());
    assert!(store.get_opening("urn:a", "/x").is_some());
}

#[test]
fn delete_keeps_openings_of_uri_with_same_prefix() {
    let mut store = InMemoryVcStore::new();
    store.insert_opening(&opening("urn:a", "/x", vec![], vec![]));
    store.insert_opening(&opening("urn:ab", "/x", vec![], vec![]));
    store.insert_opening(&opening("urn:a", "/y", vec![], vec![]));
    store.delete_vc("urn:a");
    assert!(store.get_opening("urn:a", "/x").is_none());
    assert!(store.get_opening("urn:a", "/y").is_none());
    assert!(store.get_opening("urn:ab", "/x").is_some());
}

#[test]
fn insert_vc_with_openings_later_opening_wins() {
    let mut store = InMemoryVcStore::new();
    let vc = sample_vc();
    let openings = vec![
        opening(&vc.vc_uri, "/a", vec![1], vec![1]),
        opening(&vc.vc_uri, "/a", vec![2], vec![2]),
    ];
    store.insert_vc_with_openings(&vc, &openings);
    assert_eq!(store.get_opening(&vc.vc_uri, "/a").unwrap().plaintext, vec![2]);
}

#[test]
fn fresh_metadata_and_default() {
    let m = VcMetadata::fresh("urn:q");
    assert_eq!(m.vc_uri, "urn:q");
    assert_eq!(m.display_order, 0);
    assert!(m.last_verified_ms.is_none());
    let d = VcMetadata::default();
    assert_eq!(d.vc_uri, "");
    assert!(d.custom_labels.is_empty());
}

#[test]
fn clones_keep_every_field() {
    let vc = sample_vc();
    let c = vc.clone();
    assert_eq!(c.vc_uri, vc.vc_uri);
    assert_eq!(c.body, vc.body);
    assert_eq!(c.issued_at_ms, vc.issued_at_ms);
    let op = opening("urn:a", "/p", vec![5], vec![6]);
    let oc = op.clone();
    assert_eq!(oc.claim_path, "/p");
    assert_eq!(oc.opening, vec![6]);
    let mut md = VcMetadata::fresh("urn:a");
    md.custom_labels.push(("k".into(), "v".into()));
    md.last_verify_outcome = Some("Valid".into());
    let mc = md.clone();
    assert_eq!(mc.custom_labels, md.custom_labels);
    assert_eq!(mc.last_verify_outcome, Some("Valid".to_string()));
}

#[test]
fn default_store_is_empty() {
    let store = InMemoryVcStore::default();
    assert!(store.get_vc("urn:a").is_none());
    assert!(store.get_metadata("urn:a").is_none());
    assert!(store.list_ordered().is_empty());
}
