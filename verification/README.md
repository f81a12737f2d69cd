# wallet_core

The verified core of a Midnight credential wallet, written in Verus.

- `src/vc_store`: the credential store model (`VcStoreView`), the in-memory
  store, the flat opening keys of the on-disk store and the display ordering,
  with the laws that tie the operations together (`laws.rs`).
- `src/oid4vci_client`: the decisions of the OID4VCI pre-authorized code flow:
  metadata location, response status handling, request bodies, the choice of
  credential flow, and the decoding of issued birth and passport credentials.
- `src/vc_views`: what the digital-passport card shows: family recognition,
  padded-text and day-count decoding, calendar dates, mid-truncation.
- `src/telemetry.rs`: the record kept of one timed operation.
- `src/codec.rs`, `src/text.rs`: base64, hex and UUID calls, and character
  helpers.

`app/` holds what Verus does not check: the redb store, the JSON and CBOR
forms of the documents, the HTTP flow and operation timing. Every decision
it makes is a call into the core.
