//! Flat string keys for openings in an ordered key/value table: the claim
//! path follows the credential URI behind a unit-separator character, so the
//! openings of one credential form one contiguous key range.

use vstd::prelude::*;

verus! {

/// The separator between a credential URI and a claim path.
pub open spec fn separator() -> char {
    '\u{1f}'
}

/// The character right after the separator.
pub open spec fn after_separator() -> char {
    '\u{20}'
}

/// The table key of the opening (`vc_uri`, `claim_path`).
pub open spec fn spec_opening_key(vc_uri: Seq<char>, claim_path: Seq<char>) -> Seq<char> {
    vc_uri.push(separator()) + claim_path
}

/// Strict lexicographic order of character sequences, by code point.
pub open spec fn lex_lt(a: Seq<char>, b: Seq<char>) -> bool
    decreases a.len(),
{
    if b.len() == 0 {
        false
    } else if a.len() == 0 {
        true
    } else if a[0] != b[0] {
        (a[0] as int) < (b[0] as int)
    } else {
        lex_lt(a.drop_first(), b.drop_first())
    }
}

/// The table key of the opening (`vc_uri`, `claim_path`).
pub fn opening_key(vc_uri: &str, claim_path: &str) -> (r: String)
    ensures
        r@ == spec_opening_key(vc_uri@, claim_path@),
{
    let mut r = String::from_str(vc_uri);
    r.append("\u{1f}");
    r.append(claim_path);
    proof {
        reveal_strlit("\u{1f}");
        assert(r@ =~= spec_opening_key(vc_uri@, claim_path@));
    }
    r
}

/// The half-open key range `[start, end)` that holds the openings of `vc_uri`.
pub fn opening_key_range(vc_uri: &str) -> (r: (String, String))
    ensures
        r.0@ == vc_uri@.push(separator()),
        r.1@ == vc_uri@.push(after_separator()),
{
    let mut start = String::from_str(vc_uri);
    start.append("\u{1f}");
    let mut end = String::from_str(vc_uri);
    end.append("\u{20}");
    proof {
        reveal_strlit("\u{1f}");
        reveal_strlit("\u{20}");
        assert(start@ =~= vc_uri@.push(separator()));
        assert(end@ =~= vc_uri@.push(after_separator()));
    }
    (start, end)
}

/// Every opening key of `vc_uri` lies in the key range of `vc_uri`.
pub proof fn law_opening_key_in_range(vc_uri: Seq<char>, claim_path: Seq<char>)
    ensures
        !lex_lt(spec_opening_key(vc_uri, claim_path), vc_uri.push(separator())),
        lex_lt(spec_opening_key(vc_uri, claim_path), vc_uri.push(after_separator())),
    decreases vc_uri.len(),
{
    let key = spec_opening_key(vc_uri, claim_path);
    if vc_uri.len() == 0 {
        assert(key[0] == separator());
        assert(key.drop_first() =~= claim_path);
        assert(vc_uri.push(separator()).drop_first() =~= Seq::<char>::empty());
        assert(!lex_lt(claim_path, Seq::<char>::empty()));
    } else {
        let rest = vc_uri.drop_first();
        law_opening_key_in_range(rest, claim_path);
        assert(key[0] == vc_uri[0]);
        assert(key.drop_first() =~= spec_opening_key(rest, claim_path));
        assert(vc_uri.push(separator()).drop_first() =~= rest.push(separator()));
        assert(vc_uri.push(after_separator()).drop_first() =~= rest.push(after_separator()));
    }
}

/// The key range of `vc_uri` holds no opening key of another credential,
/// where neither URI contains the separator.
pub proof fn law_opening_key_range_is_scoped(vc_uri: Seq<char>, other: Seq<char>, claim_path: Seq<char>)
    requires
        !vc_uri.contains(separator()),
        !other.contains(separator()),
        vc_uri != other,
    ensures
        lex_lt(spec_opening_key(other, claim_path), vc_uri.push(separator())) || !lex_lt(
            spec_opening_key(other, claim_path),
            vc_uri.push(after_separator()),
        ),
    decreases vc_uri.len(),
{
    let key = spec_opening_key(other, claim_path);
    let lo = vc_uri.push(separator());
    let hi = vc_uri.push(after_separator());
    if vc_uri.len() == 0 {
        assert(other.len() > 0) by {
            if other.len() == 0 {
                assert(other =~= vc_uri);
            }
        }
        assert(key[0] == other[0]);
        assert(lo[0] == separator() && hi[0] == after_separator());
        assert(other[0] != separator()) by {
            assert(other.contains(other[0]));
        }
        if key[0] == after_separator() {
            assert(hi.drop_first() =~= Seq::<char>::empty());
            assert(!lex_lt(key.drop_first(), hi.drop_first()));
        } else if (key[0] as int) < (separator() as int) {
            assert(lex_lt(key, lo));
        } else {
            assert((key[0] as int) != (after_separator() as int));
            assert((key[0] as int) > (after_separator() as int));
            assert(!lex_lt(key, hi));
        }
    } else if other.len() == 0 {
        assert(key[0] == separator());
        assert(lo[0] == vc_uri[0] && hi[0] == vc_uri[0]);
        assert(vc_uri[0] != separator()) by {
            assert(vc_uri.contains(vc_uri[0]));
        }
        assert(lex_lt(key, lo) || !lex_lt(key, hi));
    } else if vc_uri[0] != other[0] {
        assert(key[0] == other[0]);
        assert(lo[0] == vc_uri[0] && hi[0] == vc_uri[0]);
        assert(lex_lt(key, lo) || !lex_lt(key, hi));
    } else {
        let u = vc_uri.drop_first();
        let v = other.drop_first();
        assert(!u.contains(separator())) by {
            if u.contains(separator()) {
                let i = choose|i: int| 0 <= i < u.len() && u[i] == separator();
                assert(vc_uri[i + 1] == separator());
            }
        }
        assert(!v.contains(separator())) by {
            if v.contains(separator()) {
                let i = choose|i: int| 0 <= i < v.len() && v[i] == separator();
                assert(other[i + 1] == separator());
            }
        }
        assert(u != v) by {
            if u == v {
                assert(vc_uri =~= seq![vc_uri[0]] + u);
                assert(other =~= seq![other[0]] + v);
            }
        }
        law_opening_key_range_is_scoped(u, v, claim_path);
        assert(key[0] == lo[0] && key[0] == hi[0]);
        assert(key.drop_first() =~= spec_opening_key(v, claim_path));
        assert(lo.drop_first() =~= u.push(separator()));
        assert(hi.drop_first() =~= u.push(after_separator()));
    }
}

/// The separator is the unit separator U+001F and the range end the next
/// character, U+0020; an opening key is the URI, the separator and the claim
/// path, one after another.
pub proof fn law_opening_key_layout(vc_uri: Seq<char>, claim_path: Seq<char>)
    ensures
        separator() as int == 0x1f,
        after_separator() as int == separator() as int + 1,
        spec_opening_key(vc_uri, claim_path).len() == vc_uri.len() + 1 + claim_path.len(),
        spec_opening_key(vc_uri, claim_path).take(vc_uri.len() as int) == vc_uri,
        spec_opening_key(vc_uri, claim_path)[vc_uri.len() as int] == separator(),
        spec_opening_key(vc_uri, claim_path).skip(vc_uri.len() as int + 1) == claim_path,
{
    let k = spec_opening_key(vc_uri, claim_path);
    assert(k.take(vc_uri.len() as int) =~= vc_uri);
    assert(k.skip(vc_uri.len() as int + 1) =~= claim_path);
}

/// The key order is a strict order: no key precedes itself, and it is
/// transitive.
pub proof fn law_lex_lt_strict(a: Seq<char>, b: Seq<char>, c: Seq<char>)
    ensures
        !lex_lt(a, a),
        lex_lt(a, b) && lex_lt(b, c) ==> lex_lt(a, c),
    decreases a.len(),
{
    if a.len() > 0 {
        law_lex_lt_strict(a.drop_first(), a.drop_first(), a.drop_first());
        if b.len() > 0 && c.len() > 0 {
            law_lex_lt_strict(a.drop_first(), b.drop_first(), c.drop_first());
        }
    }
}

} // verus!
