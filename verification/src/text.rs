//! Character-sequence helpers shared by the rest of the crate.

use vstd::prelude::*;

verus! {

/// The pairs of character sequences that a list of string pairs holds.
pub open spec fn string_pairs_view(s: Seq<(String, String)>) -> Seq<(Seq<char>, Seq<char>)> {
    s.map_values(|p: (String, String)| (p.0@, p.1@))
}

/// A copy of a byte vector.
pub fn clone_bytes(v: &Vec<u8>) -> (r: Vec<u8>)
    ensures
        r@ == v@,
{
    let mut r: Vec<u8> = Vec::new();
    for i in 0..v.len()
        invariant
            r@ == v@.take(i as int),
    {
        r.push(v[i]);
        assert(r@ =~= v@.take(i + 1));
    }
    assert(v@.take(v.len() as int) =~= v@);
    r
}

/// Appends one character to a string.
///
/// Trusted: `String::push` appends the character at the end of the string
/// and changes nothing else, as its documentation says.
#[verifier::external_body]
pub(crate) fn push_char(s: &mut String, c: char)
    ensures
        final(s)@ == old(s)@.push(c),
{
    s.push(c);
}

/// The characters of `s`, one per element.
pub fn chars_of(s: &str) -> (r: Vec<char>)
    ensures
        r@ == s@,
{
    let n = s.unicode_len();
    let mut r: Vec<char> = Vec::new();
    for i in 0..n
        invariant
            n == s@.len(),
            r@ == s@.take(i as int),
    {
        let c = s.get_char(i);
        r.push(c);
        assert(r@ =~= s@.take(i + 1));
    }
    assert(s@.take(n as int) =~= s@);
    r
}

/// A string holding the characters of `cs`.
pub fn string_of(cs: &Vec<char>) -> (r: String)
    ensures
        r@ == cs@,
{
    let mut r = String::new();
    for i in 0..cs.len()
        invariant
            r@ == cs@.take(i as int),
    {
        push_char(&mut r, cs[i]);
        assert(r@ =~= cs@.take(i + 1));
    }
    assert(cs@.take(cs@.len() as int) =~= cs@);
    r
}

/// `t` occurs in `s` starting at index `i`.
pub open spec fn occurs_at(s: Seq<char>, t: Seq<char>, i: int) -> bool {
    0 <= i && i + t.len() <= s.len() && s.subrange(i, i + t.len()) == t
}

/// `s` begins with `t`.
pub open spec fn has_prefix(s: Seq<char>, t: Seq<char>) -> bool {
    occurs_at(s, t, 0)
}

/// `t` occurs somewhere in `s`.
pub open spec fn has_infix(s: Seq<char>, t: Seq<char>) -> bool {
    exists|i: int| #[trigger] occurs_at(s, t, i)
}

fn occurs_at_exec(s: &Vec<char>, t: &Vec<char>, i: usize) -> (r: bool)
    requires
        i + t@.len() <= s@.len(),
    ensures
        r == occurs_at(s@, t@, i as int),
{
    let mut k: usize = 0;
    while k < t.len()
        invariant
            i + t@.len() <= s@.len(),
            s@.len() == s.len(),
            k <= t@.len(),
            forall|j: int| 0 <= j < k ==> s@[i + j] == t@[j],
        decreases t@.len() - k,
    {
        if s[i + k] != t[k] {
            assert(s@.subrange(i as int, i + t@.len())[k as int] != t@[k as int]);
            return false;
        }
        k = k + 1;
    }
    assert(s@.subrange(i as int, i + t@.len()) =~= t@);
    true
}

/// Whether `s` begins with `t`.
pub fn starts_with(s: &str, t: &str) -> (r: bool)
    ensures
        r == has_prefix(s@, t@),
{
    let sc = chars_of(s);
    let tc = chars_of(t);
    if tc.len() > sc.len() {
        false
    } else {
        occurs_at_exec(&sc, &tc, 0)
    }
}

/// Whether `t` occurs anywhere in `s`.
pub fn contains(s: &str, t: &str) -> (r: bool)
    ensures
        r == has_infix(s@, t@),
{
    let sc = chars_of(s);
    let tc = chars_of(t);
    if tc.len() > sc.len() {
        assert forall|i: int| !occurs_at(s@, t@, i) by {}
        return false;
    }
    if tc.len() == 0 {
        assert(s@.subrange(0, 0) =~= t@);
        assert(occurs_at(s@, t@, 0));
        return true;
    }
    let end = sc.len() - tc.len() + 1;
    for i in 0..end
        invariant
            sc@ == s@,
            tc@ == t@,
            end + tc@.len() == sc@.len() + 1,
            forall|j: int| 0 <= j < i ==> !occurs_at(s@, t@, j),
    {
        if occurs_at_exec(&sc, &tc, i) {
            return true;
        }
    }
    false
}

/// The decimal digit character of `d`, for `0 <= d < 10`.
pub open spec fn digit_char(d: int) -> char {
    seq!['0', '1', '2', '3', '4', '5', '6', '7', '8', '9'][d]
}

/// The decimal representation of `n`, without leading zeros.
pub open spec fn decimal(n: nat) -> Seq<char>
    decreases n,
{
    if n < 10 {
        seq![digit_char(n as int)]
    } else {
        decimal(n / 10).push(digit_char((n % 10) as int))
    }
}

/// `s` with zeros put in front until it is `width` characters long.
pub open spec fn zero_pad(s: Seq<char>, width: nat) -> Seq<char> {
    if s.len() >= width {
        s
    } else {
        Seq::new((width - s.len()) as nat, |i: int| '0') + s
    }
}

/// `v` in decimal, zero-padded to `width` characters with the sign counted in
/// the width, as Rust's `{:0width$}` formats a signed integer.
pub open spec fn signed_zero_pad(v: int, width: nat) -> Seq<char> {
    if v < 0 {
        seq!['-'] + zero_pad(decimal((-v) as nat), (width - 1) as nat)
    } else {
        zero_pad(decimal(v as nat), width)
    }
}

/// The decimal digits of `n`.
pub fn decimal_chars(n: u64) -> (r: Vec<char>)
    ensures
        r@ == decimal(n as nat),
        1 <= r@.len(),
    decreases n,
{
    let digits = ['0', '1', '2', '3', '4', '5', '6', '7', '8', '9'];
    if n < 10 {
        let mut r: Vec<char> = Vec::new();
        r.push(digits[n as usize]);
        proof {
            assert(digits@ =~= seq!['0', '1', '2', '3', '4', '5', '6', '7', '8', '9']);
            assert(r@ =~= decimal(n as nat));
        }
        r
    } else {
        let mut r = decimal_chars(n / 10);
        let d = (n % 10) as usize;
        r.push(digits[d]);
        proof {
            assert(digits@ =~= seq!['0', '1', '2', '3', '4', '5', '6', '7', '8', '9']);
            assert(r@ =~= decimal(n as nat));
        }
        r
    }
}

/// Appends `n` in decimal, zero-padded to `width` characters.
pub fn push_zero_padded(out: &mut Vec<char>, n: u64, width: usize)
    ensures
        final(out)@ == old(out)@ + zero_pad(decimal(n as nat), width as nat),
{
    let ds = decimal_chars(n);
    let ghost start = out@;
    if ds.len() < width {
        let pad = width - ds.len();
        for i in 0..pad
            invariant
                out@ == start + Seq::new(i as nat, |j: int| '0'),
        {
            out.push('0');
            assert(out@ =~= start + Seq::new((i + 1) as nat, |j: int| '0'));
        }
    }
    let ghost mid = out@;
    for i in 0..ds.len()
        invariant
            out@ == mid + ds@.take(i as int),
    {
        out.push(ds[i]);
        assert(out@ =~= mid + ds@.take(i + 1));
    }
    assert(ds@.take(ds@.len() as int) =~= ds@);
    assert(out@ =~= start + zero_pad(decimal(n as nat), width as nat));
}

/// HTTP statuses of the 2xx class, which report success.
pub open spec fn is_success_status(status: u16) -> bool {
    200 <= status <= 299
}

/// Whether `a` and `b` hold the same characters.
pub fn same_text(a: &str, b: &str) -> (r: bool)
    ensures
        r == (a@ == b@),
{
    a.to_owned() == b.to_owned()
}

/// The decimal digit characters are `'0'` to `'9'`, in order of value.
pub proof fn law_digit_chars(d: int)
    requires
        0 <= d < 10,
    ensures
        digit_char(d) as int == 48 + d,
{
}

/// The decimal text of `n` is its digits, most significant first: the last
/// character is the digit of `n % 10`, the rest is the text of `n / 10`, and
/// only zero itself starts with `'0'`.
pub proof fn law_decimal(n: nat)
    ensures
        decimal(n).len() >= 1,
        decimal(n).last() as int == 48 + n % 10,
        n < 10 ==> decimal(n).len() == 1,
        n >= 10 ==> decimal(n).drop_last() == decimal(n / 10),
        n > 0 ==> decimal(n)[0] != '0',
    decreases n,
{
    if n >= 10 {
        law_decimal(n / 10);
        assert(decimal(n).drop_last() =~= decimal(n / 10));
        assert(decimal(n)[0] == decimal(n / 10)[0]);
    }
}

/// Zero-padding keeps the text at the end, puts only `'0'` in front, and
/// makes it exactly `width` long unless it already is longer.
pub proof fn law_zero_pad(s: Seq<char>, width: nat)
    ensures
        zero_pad(s, width).len() == if s.len() >= width { s.len() } else { width },
        zero_pad(s, width).skip(zero_pad(s, width).len() - s.len()) == s,
        forall|i: int| 0 <= i < zero_pad(s, width).len() - s.len() ==> #[trigger] zero_pad(s, width)[i] == '0',
{
    let r = zero_pad(s, width);
    assert(r.skip(r.len() - s.len()) =~= s);
}

/// A negative number's padded text starts with `-` followed by digits; a
/// non-negative number's has no sign.
pub proof fn law_signed_zero_pad(v: int, width: nat)
    ensures
        v < 0 ==> signed_zero_pad(v, width)[0] == '-' && signed_zero_pad(v, width).drop_first()
            == zero_pad(decimal((-v) as nat), (width - 1) as nat),
        v >= 0 ==> signed_zero_pad(v, width) == zero_pad(decimal(v as nat), width),
{
    if v < 0 {
        let t = zero_pad(decimal((-v) as nat), (width - 1) as nat);
        assert((seq!['-'] + t).drop_first() =~= t);
    }
}

/// `s` begins with `t` exactly when `t` is no longer than `s` and agrees with
/// it character by character; a prefix also occurs in `s`.
pub proof fn law_prefix(s: Seq<char>, t: Seq<char>)
    ensures
        has_prefix(s, t) <==> (t.len() <= s.len() && forall|i: int| 0 <= i < t.len() ==> #[trigger] s[i] == t[i]),
        has_prefix(s, t) ==> has_infix(s, t),
{
    if t.len() <= s.len() && forall|i: int| 0 <= i < t.len() ==> #[trigger] s[i] == t[i] {
        assert(s.subrange(0, t.len() as int) =~= t);
    }
    if has_prefix(s, t) {
        assert forall|i: int| 0 <= i < t.len() implies #[trigger] s[i] == t[i] by {
            assert(s.subrange(0, t.len() as int)[i] == s[i]);
        }
        assert(occurs_at(s, t, 0));
    }
}

/// `t` occurs in `s` exactly when some suffix of `s` begins with `t`.
pub proof fn law_infix(s: Seq<char>, t: Seq<char>)
    ensures
        has_infix(s, t) <==> exists|i: int| 0 <= i <= s.len() && #[trigger] has_prefix(s.skip(i), t),
{
    if has_infix(s, t) {
        let i = choose|i: int| #[trigger] occurs_at(s, t, i);
        assert(s.skip(i).subrange(0, t.len() as int) =~= s.subrange(i, i + t.len()));
        assert(has_prefix(s.skip(i), t));
    }
    if exists|i: int| 0 <= i <= s.len() && #[trigger] has_prefix(s.skip(i), t) {
        let i = choose|i: int| 0 <= i <= s.len() && #[trigger] has_prefix(s.skip(i), t);
        assert(s.skip(i).subrange(0, t.len() as int) =~= s.subrange(i, i + t.len()));
        assert(occurs_at(s, t, i));
    }
}

/// The success statuses are exactly those whose hundreds digit is 2.
pub proof fn law_success_status(status: u16)
    ensures
        is_success_status(status) <==> status / 100 == 2,
{
}

} // verus!
