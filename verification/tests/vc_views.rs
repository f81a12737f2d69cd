use wallet_core::vc_store::{StoredVc, VcOpening};
use wallet_core::vc_views::calendar::{civil_from_days, days_of_unix_secs};
use wallet_core::vc_views::digital_passport::{
    decode_days_since_epoch, decode_text_padded, format_unix_date_ymd, is_digital_passport,
    passport_card_text, revealed_claim, truncate, claim_caption, claim_toggle_label,
    date_of_birth_caption, footer_note, verify_button_label, CLAIM_DATE_OF_BIRTH, CLAIM_FIRST_NAME, CLAIM_LAST_NAME, PACKAGE_ID, SCHEMA_ID,
};

fn vc_with_uri(uri: &str) -> StoredVc {
    StoredVc {
        vc_uri: uri.into(),
        issuer_did: "did:midnight:issuer".into(),
        holder_did: "did:midnight:holder".into(),
        format: "midnight-vc-compact".into(),
        body: vec![],
        proof: vec![],
        issued_at_ms: 0,
    }
}

#[test]
fn decode_text_padded_strips_nuls() {
    let mut buf = vec![0u8; 64];
    buf[..5].copy_from_slice(b"Alice");
    assert_eq!(decode_text_padded(&buf), "Alice");
}

#[test]
fn decode_text_padded_handles_empty() {
    let buf = vec![0u8; 64];
    assert_eq!(decode_text_padded(&buf), "");
}

#[test]
fn decode_days_since_epoch_matches_iso() {
    // 1990-01-01 is day 7305 after 1970-01-01.
    let buf = 7305u32.to_le_bytes().to_vec();
    assert_eq!(decode_days_since_epoch(&buf), "1990-01-01");
}

#[test]
fn decode_days_since_epoch_wrong_len_falls_back() {
    let buf = vec![0u8, 1, 2];
    assert_eq!(decode_days_since_epoch(&buf), "<3 bytes>");
}

#[test]
fn matcher_accepts_prefixed_uri() {
    assert!(is_digital_passport(&vc_with_uri("urn:vc:digital-passport:abc")));
}

#[test]
fn matcher_rejects_unrelated() {
    assert!(!is_digital_passport(&vc_with_uri("urn:vc:birth-cert:abc")));
}

#[test]
fn truncate_short_strings_unchanged() {
    assert_eq!(truncate("abc", 10), "abc");
}

#[test]
fn truncate_long_strings_mid_elides() {
    let out = truncate("abcdefghijklmnop", 8);
    // 4 head chars + "…" + 4 tail chars
    assert_eq!(out, "abcd…mnop");
}

#[test]
fn matcher_accepts_infix_namespace() {
    assert!(is_digital_passport(&vc_with_uri("did:x:digital-passport:1")));
    assert!(!is_digital_passport(&vc_with_uri("urn:vc:digital-passport")));
    assert!(!is_digital_passport(&vc_with_uri("")));
}

#[test]
fn decode_text_padded_keeps_inner_nuls() {
    assert_eq!(decode_text_padded(&[b'a', 0, b'b', 0, 0]), "a\u{0}b");
    assert_eq!(decode_text_padded(&[]), "");
}

#[test]
fn decode_text_padded_replaces_invalid_utf8() {
    assert_eq!(decode_text_padded(&[b'A', 0xff, 0]), "A\u{fffd}");
    assert_eq!(decode_text_padded("Zoë".as_bytes()), "Zoë");
}

#[test]
fn decode_days_since_epoch_epoch_and_leap_day() {
    assert_eq!(decode_days_since_epoch(&0u32.to_le_bytes()), "1970-01-01");
    // 2000-02-29 is day 11016.
    assert_eq!(decode_days_since_epoch(&11016u32.to_le_bytes()), "2000-02-29");
    // 1985-01-01 is day 5479.
    assert_eq!(decode_days_since_epoch(&5479u32.to_le_bytes()), "1985-01-01");
}

#[test]
fn decode_days_since_epoch_largest_day() {
    // u32::MAX days after 1970-01-01.
    assert_eq!(decode_days_since_epoch(&u32::MAX.to_le_bytes()), "11761191-01-20");
}

#[test]
fn decode_days_since_epoch_other_lengths() {
    assert_eq!(decode_days_since_epoch(&[]), "<0 bytes>");
    assert_eq!(decode_days_since_epoch(&[0u8; 12]), "<12 bytes>");
}

#[test]
fn format_unix_date_ymd_values() {
    assert_eq!(format_unix_date_ymd(0), "1970-01-01");
    assert_eq!(format_unix_date_ymd(86_399), "1970-01-01");
    assert_eq!(format_unix_date_ymd(-1), "1969-12-31");
    assert_eq!(format_unix_date_ymd(951_782_400), "2000-02-29");
    assert_eq!(format_unix_date_ymd(4_107_542_400), "2100-03-01");
    assert_eq!(format_unix_date_ymd(-62_135_596_800), "0001-01-01");
    assert_eq!(format_unix_date_ymd(-62_198_755_200), "-001-01-01");
}

#[test]
fn format_unix_date_ymd_extremes() {
    assert_eq!(format_unix_date_ymd(i64::MAX), "292277026596-12-04");
    assert_eq!(format_unix_date_ymd(i64::MIN), "-292277022657-01-27");
}

#[test]
fn calendar_helpers() {
    assert_eq!(days_of_unix_secs(-1), -1);
    assert_eq!(days_of_unix_secs(86_400), 1);
    assert_eq!(civil_from_days(0), (1970, 1, 1));
    assert_eq!(civil_from_days(-719_468), (0, 3, 1));
    assert_eq!(civil_from_days(11_016), (2000, 2, 29));
}

#[test]
fn truncate_edges() {
    assert_eq!(truncate("abcdefghij", 10), "abcdefghij");
    assert_eq!(truncate("abcdefghijk", 10), "abcde…ghijk");
    assert_eq!(truncate("abcdef", 5), "ab…ef");
    assert_eq!(truncate("abc", 0), "…");
    assert_eq!(truncate("", 0), "");
    assert_eq!(truncate("ééééé", 2), "é…é");
}

#[test]
fn passport_constants() {
    assert_eq!(SCHEMA_ID, "digital-passport:v1");
    assert_eq!(PACKAGE_ID, "midnight:vc:digital-passport");
    assert_eq!(CLAIM_FIRST_NAME, "/credentialSubject/firstName");
    assert_eq!(CLAIM_LAST_NAME, "/credentialSubject/lastName");
    assert_eq!(CLAIM_DATE_OF_BIRTH, "/credentialSubject/dateOfBirth");
}

#[test]
fn decode_text_padded_ignores_padding_length() {
    let mut short = b"Bob".to_vec();
    short.extend_from_slice(&[0u8; 2]);
    let mut long = b"Bob".to_vec();
    long.extend_from_slice(&[0u8; 61]);
    assert_eq!(decode_text_padded(&short), decode_text_padded(&long));
    assert_eq!(decode_text_padded(&long), "Bob");
}

#[test]
fn passport_card_texts() {
    let mut vc = vc_with_uri("urn:vc:digital-passport:0123456789abcdef0123456789");
    vc.issuer_did = "did:midnight:issuer:0123456789abcdef".into();
    vc.issued_at_ms = 1_700_000_001_000;
    let mut padded = vec![0u8; 64];
    padded[..5].copy_from_slice(b"Alice");
    let first = Some(VcOpening {
        vc_uri: vc.vc_uri.clone(),
        claim_path: "/credentialSubject/firstName".into(),
        plaintext: padded,
        opening: vec![1],
    });
    let shown = passport_card_text(&vc, &first, &None, true, true);
    assert_eq!(shown.first_name, "Alice");
    assert_eq!(shown.last_name, "(opening missing)");
    assert_eq!(shown.issuer_short, "did:midnight…456789abcdef");
    assert_eq!(shown.uri_short, "urn:vc:digital-…bcdef0123456789");
    assert_eq!(shown.issued_iso, "2023-11-14");
    let hidden = passport_card_text(&vc, &first, &None, false, false);
    assert_eq!(hidden.first_name, "");
    assert_eq!(hidden.last_name, "");
    assert_eq!(revealed_claim(&None, false), "");
}

#[test]
fn passport_card_captions_and_labels() {
    assert_eq!(claim_caption(true, true, "Alice"), "Alice");
    assert_eq!(claim_caption(true, false, "Alice"), "Encrypted until you reveal it.");
    assert_eq!(claim_caption(false, true, "x"), "No opening stored — cannot reveal.");
    assert_eq!(claim_toggle_label(true, true).as_deref(), Some("Hide"));
    assert_eq!(claim_toggle_label(true, false).as_deref(), Some("Reveal"));
    assert_eq!(claim_toggle_label(false, false), None);
    assert_eq!(date_of_birth_caption(true), "Never reveals the raw date. Proves only age ≥ threshold.");
    assert_eq!(
        date_of_birth_caption(false),
        "Never reveals the raw date. Proves only age ≥ threshold. (no opening stored — predicate cannot prove)"
    );
    assert_eq!(verify_button_label(true), "Verifying…");
    assert_eq!(verify_button_label(false), "Self-verify");
    assert_eq!(footer_note(None), "Presentation generation is wired in Phase 2.");
    assert_eq!(footer_note(Some("Valid")), "Valid · Presentation generation is wired in Phase 2.");
}
