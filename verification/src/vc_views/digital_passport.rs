//! The pure part of the `digital-passport:v1` credential card: recognising
//! passport credentials and decoding their claim openings for display.

use vstd::prelude::*;

use crate::text::{
    chars_of, contains, decimal, decimal_chars, has_infix, has_prefix, occurs_at, push_char,
    push_zero_padded, signed_zero_pad, starts_with, string_of, zero_pad,
};
use crate::vc_store::types::{StoredVc, VcOpening};
use crate::vc_views::calendar::{
    civil_from_days, day_number, days_of_unix_secs, law_day_number_injective, valid_date,
};

verus! {

/// Schema identifier of the passport credential family.
pub const SCHEMA_ID: &'static str = "digital-passport:v1";

/// Package identifier of the passport credential family.
pub const PACKAGE_ID: &'static str = "midnight:vc:digital-passport";

/// Claim path of the first name.
pub const CLAIM_FIRST_NAME: &'static str = "/credentialSubject/firstName";

/// Claim path of the last name.
pub const CLAIM_LAST_NAME: &'static str = "/credentialSubject/lastName";

/// Claim path of the date of birth.
pub const CLAIM_DATE_OF_BIRTH: &'static str = "/credentialSubject/dateOfBirth";

/// Whether a credential URI names a passport credential: it starts with
/// `urn:vc:digital-passport:` or contains `:digital-passport:`.
pub open spec fn is_passport_uri(vc_uri: Seq<char>) -> bool {
    has_prefix(vc_uri, "urn:vc:digital-passport:"@) || has_infix(vc_uri, ":digital-passport:"@)
}

/// Whether `vc` belongs to the digital-passport family, judged by its URI.
pub fn is_digital_passport(vc: &StoredVc) -> (r: bool)
    ensures
        r == is_passport_uri(vc.vc_uri@),
{
    starts_with(vc.vc_uri.as_str(), "urn:vc:digital-passport:") || contains(
        vc.vc_uri.as_str(),
        ":digital-passport:",
    )
}

/// `b` without its run of trailing zero bytes.
pub open spec fn trim_trailing_zeros(b: Seq<u8>) -> Seq<u8>
    decreases b.len(),
{
    if b.len() > 0 && b.last() == 0 {
        trim_trailing_zeros(b.drop_last())
    } else {
        b
    }
}

/// What lossy UTF-8 decoding makes of `bytes`: the decoded text where the
/// bytes are valid UTF-8, with each invalid sequence replaced by U+FFFD.
pub uninterp spec fn utf8_lossy_text(bytes: Seq<u8>) -> Seq<char>;

/// Decodes bytes as UTF-8, replacing invalid sequences.
///
/// Trusted: `String::from_utf8_lossy` returns the decoded text of valid UTF-8
/// input unchanged; on other input its replacements are not described here
/// beyond being a function of the bytes.
#[verifier::external_body]
fn utf8_lossy(bytes: &[u8]) -> (r: String)
    ensures
        r@ == utf8_lossy_text(bytes@),
        vstd::utf8::valid_utf8(bytes@) ==> r@ == vstd::utf8::decode_utf8(bytes@),
{
    String::from_utf8_lossy(bytes).into_owned()
}

/// Decodes a zero-padded text claim: trailing zero bytes are dropped and the
/// rest is decoded as UTF-8, invalid sequences replaced.
pub fn decode_text_padded(plaintext: &[u8]) -> (r: String)
    ensures
        r@ == utf8_lossy_text(trim_trailing_zeros(plaintext@)),
        vstd::utf8::valid_utf8(trim_trailing_zeros(plaintext@)) ==> r@ == vstd::utf8::decode_utf8(
            trim_trailing_zeros(plaintext@),
        ),
{
    let mut end = plaintext.len();
    assert(plaintext@.take(end as int) =~= plaintext@);
    while end > 0 && plaintext[end - 1] == 0
        invariant
            end <= plaintext@.len(),
            trim_trailing_zeros(plaintext@) == trim_trailing_zeros(plaintext@.take(end as int)),
        decreases end,
    {
        proof {
            assert(plaintext@.take(end as int).drop_last() =~= plaintext@.take(end - 1));
        }
        end = end - 1;
    }
    let mut kept: Vec<u8> = Vec::new();
    for i in 0..end
        invariant
            end <= plaintext@.len(),
            kept@ == plaintext@.take(i as int),
    {
        kept.push(plaintext[i]);
        assert(kept@ =~= plaintext@.take(i + 1));
    }
    proof {
        assert(plaintext@.take(end as int).take(end as int) =~= plaintext@.take(end as int));
        assert(kept@ == trim_trailing_zeros(plaintext@));
    }
    utf8_lossy(kept.as_slice())
}

/// The unsigned 32-bit number whose little-endian bytes are `b[0..4]`.
pub open spec fn le_u32(b: Seq<u8>) -> int {
    b[0] + 256 * b[1] + 65536 * b[2] + 16777216 * b[3]
}

/// The calendar date of day `z`, counted from 1970-01-01.
pub open spec fn date_of_day(z: int) -> (int, int, int) {
    choose|t: (int, int, int)| valid_date(t.0, t.1, t.2) && day_number(t.0, t.1, t.2) == z
}

/// `YYYY-MM-DD` text of a date, the year zero-padded to four characters
/// (sign included) and month and day to two.
pub open spec fn ymd_text(t: (int, int, int)) -> Seq<char> {
    signed_zero_pad(t.0, 4) + seq!['-'] + zero_pad(decimal(t.1 as nat), 2) + seq!['-'] + zero_pad(
        decimal(t.2 as nat),
        2,
    )
}

/// The `YYYY-MM-DD` date of the day on which the Unix time `unix_secs` falls.
pub fn format_unix_date_ymd(unix_secs: i64) -> (r: String)
    ensures
        r@ == ymd_text(date_of_day(unix_secs as int / 86400)),
{
    let z = days_of_unix_secs(unix_secs);
    let (y, m, d) = civil_from_days(z);
    proof {
        let t = (y as int, m as int, d as int);
        let c = date_of_day(z as int);
        assert(valid_date(t.0, t.1, t.2) && day_number(t.0, t.1, t.2) == z);
        law_day_number_injective(c.0, c.1, c.2, t.0, t.1, t.2);
    }
    let mut out: Vec<char> = Vec::new();
    if y < 0 {
        out.push('-');
        let ay: u64 = (-y) as u64;
        push_zero_padded(&mut out, ay, 3);
    } else {
        push_zero_padded(&mut out, y as u64, 4);
    }
    out.push('-');
    push_zero_padded(&mut out, m as u64, 2);
    out.push('-');
    push_zero_padded(&mut out, d as u64, 2);
    proof {
        assert(out@ =~= ymd_text((y as int, m as int, d as int)));
    }
    string_of(&out)
}

/// Decodes a four-byte little-endian days-since-epoch claim into its
/// `YYYY-MM-DD` date; any other length gives `<N bytes>`.
pub fn decode_days_since_epoch(plaintext: &[u8]) -> (r: String)
    ensures
        plaintext@.len() == 4 ==> r@ == ymd_text(date_of_day(le_u32(plaintext@))),
        plaintext@.len() != 4 ==> r@ == seq!['<'] + decimal(plaintext@.len()) + " bytes>"@,
{
    if plaintext.len() != 4 {
        let mut out: Vec<char> = Vec::new();
        out.push('<');
        let ds = decimal_chars(plaintext.len() as u64);
        let mut s = string_of(&out);
        let digits = string_of(&ds);
        s.append(digits.as_str());
        s.append(" bytes>");
        proof {
            reveal_strlit(" bytes>");
            assert(s@ =~= seq!['<'] + decimal(plaintext@.len()) + " bytes>"@);
        }
        return s;
    }
    let days: u32 = plaintext[0] as u32 + 256 * (plaintext[1] as u32) + 65536 * (plaintext[2] as u32)
        + 16777216 * (plaintext[3] as u32);
    let secs: i64 = (days as i64) * 86400;
    assert(secs as int / 86400 == days as int);
    format_unix_date_ymd(secs)
}

/// `s` shortened to `max / 2` leading characters, an ellipsis and `max / 2`
/// trailing characters when it has more than `max` characters.
pub open spec fn mid_truncated(s: Seq<char>, max: nat) -> Seq<char> {
    if s.len() <= max {
        s
    } else {
        s.take((max / 2) as int) + seq!['…'] + s.skip(s.len() - max / 2)
    }
}

/// Shortens `s` in the middle to at most `max + 1` characters.
pub fn truncate(s: &str, max: usize) -> (r: String)
    ensures
        r@ == mid_truncated(s@, max as nat),
{
    let count = s.unicode_len();
    if count <= max {
        return String::from_str(s);
    }
    let half = max / 2;
    let head = s.substring_char(0, half);
    let tail = s.substring_char(count - half, count);
    let mut r = String::from_str(head);
    push_char(&mut r, '…');
    r.append(tail);
    proof {
        assert(s@.subrange(count - half, count as int) =~= s@.skip(count - half));
        assert(s@.subrange(0, half as int) =~= s@.take(half as int));
        assert(r@ =~= mid_truncated(s@, max as nat));
    }
    r
}

/// What a selectively disclosable claim row shows: nothing while hidden; once
/// revealed, the decoded opening, or a placeholder when none is stored.
pub open spec fn revealed_text(opening: Option<VcOpening>, reveal: bool) -> Seq<char> {
    if !reveal {
        Seq::empty()
    } else {
        match opening {
            Some(o) => utf8_lossy_text(trim_trailing_zeros(o.plaintext@)),
            None => "(opening missing)"@,
        }
    }
}

/// The text a selectively disclosable claim row shows.
pub fn revealed_claim(opening: &Option<VcOpening>, reveal: bool) -> (r: String)
    ensures
        r@ == revealed_text(*opening, reveal),
{
    if !reveal {
        return String::new();
    }
    match opening {
        Some(o) => decode_text_padded(o.plaintext.as_slice()),
        None => String::from_str("(opening missing)"),
    }
}

/// The texts of a passport card: the two name rows, the shortened issuer and
/// credential URI, and the issuance date.
#[derive(Debug)]
pub struct PassportCardText {
    pub first_name: String,
    pub last_name: String,
    pub issuer_short: String,
    pub uri_short: String,
    pub issued_iso: String,
}

/// The texts a passport card shows for `vc` and the openings of its names:
/// issuer shortened to 24 characters, URI to 30, and the `YYYY-MM-DD` day of
/// the issuance time.
pub fn passport_card_text(
    vc: &StoredVc,
    opening_first: &Option<VcOpening>,
    opening_last: &Option<VcOpening>,
    reveal_first: bool,
    reveal_last: bool,
) -> (r: PassportCardText)
    ensures
        r.first_name@ == revealed_text(*opening_first, reveal_first),
        r.last_name@ == revealed_text(*opening_last, reveal_last),
        r.issuer_short@ == mid_truncated(vc.issuer_did@, 24),
        r.uri_short@ == mid_truncated(vc.vc_uri@, 30),
        r.issued_iso@ == ymd_text(date_of_day((vc.issued_at_ms / 1000) as int / 86400)),
{
    let secs: i64 = (vc.issued_at_ms / 1000) as i64;
    PassportCardText {
        first_name: revealed_claim(opening_first, reveal_first),
        last_name: revealed_claim(opening_last, reveal_last),
        issuer_short: truncate(vc.issuer_did.as_str(), 24),
        uri_short: truncate(vc.vc_uri.as_str(), 30),
        issued_iso: format_unix_date_ymd(secs),
    }
}

/// The caption of a selectively disclosable claim row: the revealed text, a
/// hint while it is hidden, or a notice that no opening is stored.
pub open spec fn spec_claim_caption(present: bool, reveal: bool, revealed: Seq<char>) -> Seq<char> {
    if !present {
        "No opening stored — cannot reveal."@
    } else if reveal {
        revealed
    } else {
        "Encrypted until you reveal it."@
    }
}

/// The caption of a selectively disclosable claim row.
pub fn claim_caption(present: bool, reveal: bool, revealed: &str) -> (r: String)
    ensures
        r@ == spec_claim_caption(present, reveal, revealed@),
        !present ==> r@ == "No opening stored — cannot reveal."@,
        present && reveal ==> r@ == revealed@,
        present && !reveal ==> r@ == "Encrypted until you reveal it."@,
{
    if !present {
        String::from_str("No opening stored — cannot reveal.")
    } else if reveal {
        String::from_str(revealed)
    } else {
        String::from_str("Encrypted until you reveal it.")
    }
}

/// A row without a stored opening reads the no-opening notice whatever the
/// reveal flag; a row with one shows its text when revealed and the hint
/// otherwise. The notice and the hint never equal each other.
pub proof fn law_claim_caption(present: bool, reveal: bool, revealed: Seq<char>)
    ensures
        !present ==> spec_claim_caption(present, reveal, revealed) == "No opening stored — cannot reveal."@,
        present && reveal ==> spec_claim_caption(present, reveal, revealed) == revealed,
        present && !reveal ==> spec_claim_caption(present, reveal, revealed) == "Encrypted until you reveal it."@,
        spec_claim_caption(false, reveal, revealed) != spec_claim_caption(true, false, revealed),
{
    reveal_strlit("No opening stored — cannot reveal.");
    reveal_strlit("Encrypted until you reveal it.");
    assert("No opening stored — cannot reveal."@[0] != "Encrypted until you reveal it."@[0]);
}

/// The label of a claim row's toggle button; a row without an opening has no
/// button.
pub fn claim_toggle_label(present: bool, reveal: bool) -> (r: Option<String>)
    ensures
        !present ==> r is None,
        present && reveal ==> (r matches Some(l) && l@ == "Hide"@),
        present && !reveal ==> (r matches Some(l) && l@ == "Reveal"@),
{
    if !present {
        None
    } else if reveal {
        Some(String::from_str("Hide"))
    } else {
        Some(String::from_str("Reveal"))
    }
}

/// The caption of the predicate-only date-of-birth row, with a notice when no
/// opening is stored.
pub fn date_of_birth_caption(dob_present: bool) -> (r: String)
    ensures
        dob_present ==> r@ == "Never reveals the raw date. Proves only age ≥ threshold."@,
        !dob_present ==> r@ == "Never reveals the raw date. Proves only age ≥ threshold."@
            + " (no opening stored — predicate cannot prove)"@,
{
    let mut r = String::from_str("Never reveals the raw date. Proves only age ≥ threshold.");
    if !dob_present {
        r.append(" (no opening stored — predicate cannot prove)");
    }
    r
}

/// The label of the self-verify button.
pub fn verify_button_label(verifying: bool) -> (r: String)
    ensures
        verifying ==> r@ == "Verifying…"@,
        !verifying ==> r@ == "Self-verify"@,
{
    if verifying {
        String::from_str("Verifying…")
    } else {
        String::from_str("Self-verify")
    }
}

/// The card's footer note, led by the self-verify badge where there is one.
pub fn footer_note(verify_label: Option<&str>) -> (r: String)
    ensures
        verify_label is None ==> r@ == "Presentation generation is wired in Phase 2."@,
        verify_label matches Some(b) ==> r@ == b@ + " · "@
            + "Presentation generation is wired in Phase 2."@,
{
    let mut r = match verify_label {
        Some(b) => {
            let mut t = String::from_str(b);
            t.append(" · ");
            t
        },
        None => String::new(),
    };
    r.append("Presentation generation is wired in Phase 2.");
    proof {
        if verify_label is None {
            assert(r@ =~= "Presentation generation is wired in Phase 2."@);
        }
    }
    r
}

/// Zero bytes padded onto a text claim do not change what it decodes to.
pub proof fn law_padding_is_ignored(b: Seq<u8>, n: nat)
    ensures
        trim_trailing_zeros(b + Seq::new(n, |i: int| 0u8)) == trim_trailing_zeros(b),
        utf8_lossy_text(trim_trailing_zeros(b + Seq::new(n, |i: int| 0u8))) == utf8_lossy_text(
            trim_trailing_zeros(b),
        ),
    decreases n,
{
    let padded = b + Seq::new(n, |i: int| 0u8);
    if n == 0 {
        assert(padded =~= b);
    } else {
        let shorter = b + Seq::new((n - 1) as nat, |i: int| 0u8);
        assert(padded.drop_last() =~= shorter);
        law_padding_is_ignored(b, (n - 1) as nat);
    }
}

/// A shortened string has at most `max + 1` characters and begins with the
/// first `max / 2` characters of the original; a string of at most `max`
/// characters is kept whole.
pub proof fn law_truncate_bounded(s: Seq<char>, max: nat)
    ensures
        mid_truncated(s, max).len() <= max + 1,
        s.len() <= max ==> mid_truncated(s, max) == s,
        s.len() > max ==> mid_truncated(s, max).take((max / 2) as int) == s.take((max / 2) as int),
{
    if s.len() > max {
        let r = mid_truncated(s, max);
        assert(r.take((max / 2) as int) =~= s.take((max / 2) as int));
    }
}

/// Trimming drops exactly the run of trailing zero bytes: what is left is a
/// prefix of the input not ending in zero, and everything after it is zero.
pub proof fn law_trim_trailing_zeros(b: Seq<u8>)
    ensures
        trim_trailing_zeros(b).len() <= b.len(),
        b.take(trim_trailing_zeros(b).len() as int) == trim_trailing_zeros(b),
        trim_trailing_zeros(b).len() > 0 ==> trim_trailing_zeros(b).last() != 0,
        forall|i: int| trim_trailing_zeros(b).len() <= i < b.len() ==> #[trigger] b[i] == 0,
    decreases b.len(),
{
    if b.len() > 0 && b.last() == 0 {
        law_trim_trailing_zeros(b.drop_last());
        let r = trim_trailing_zeros(b);
        assert(b.take(r.len() as int) =~= b.drop_last().take(r.len() as int));
        assert forall|i: int| r.len() <= i < b.len() implies #[trigger] b[i] == 0 by {
            if i < b.len() - 1 {
                assert(b.drop_last()[i] == b[i]);
            }
        }
    } else {
        assert(b.take(b.len() as int) =~= b);
    }
}

/// The four little-endian bytes give a `u32`: the first byte is its lowest
/// byte and the fourth its highest.
pub proof fn law_le_u32(b: Seq<u8>)
    requires
        b.len() >= 4,
    ensures
        0 <= le_u32(b) < 0x1_0000_0000,
        le_u32(b) % 256 == b[0],
        le_u32(b) / 16777216 == b[3],
        (le_u32(b) / 256) % 256 == b[1],
        (le_u32(b) / 65536) % 256 == b[2],
{
}

/// A URI names a passport credential exactly when it contains
/// `:digital-passport:`; so every URI under `urn:vc:digital-passport:` does.
pub proof fn law_passport_uri_is_namespace(vc_uri: Seq<char>)
    ensures
        is_passport_uri(vc_uri) <==> has_infix(vc_uri, ":digital-passport:"@),
        has_prefix(vc_uri, "urn:vc:digital-passport:"@) ==> is_passport_uri(vc_uri),
{
    if has_prefix(vc_uri, "urn:vc:digital-passport:"@) {
        reveal_strlit("urn:vc:digital-passport:");
        reveal_strlit(":digital-passport:");
        let t = ":digital-passport:"@;
        assert(vc_uri.subrange(6, 6 + t.len() as int) =~= "urn:vc:digital-passport:"@.subrange(6, 24));
        assert(vc_uri.subrange(6, 6 + t.len() as int) =~= t);
        assert(occurs_at(vc_uri, t, 6));
    }
}

/// A shortened string is its first `max / 2` characters, the ellipsis, and
/// its last `max / 2` characters.
pub proof fn law_truncate_keeps_both_ends(s: Seq<char>, max: nat)
    requires
        s.len() > max,
    ensures
        mid_truncated(s, max).len() == 2 * (max / 2) + 1,
        mid_truncated(s, max)[(max / 2) as int] == '…',
        mid_truncated(s, max).take((max / 2) as int) == s.take((max / 2) as int),
        mid_truncated(s, max).skip((max / 2) as int + 1) == s.skip(s.len() - max / 2),
{
    let r = mid_truncated(s, max);
    assert(r.take((max / 2) as int) =~= s.take((max / 2) as int));
    assert(r.skip((max / 2) as int + 1) =~= s.skip(s.len() - max / 2));
}

} // verus!
