//! Reading the HTTP response headers a download depends on. A header value
//! is usable as text only when every byte is visible ASCII or a tab; a
//! `Content-Length` is then read as an unsigned decimal number.

use vstd::prelude::*;

verus! {

/// A byte that may stand in a header value read as text.
pub open spec fn is_visible_ascii(b: u8) -> bool {
    (32 <= b && b < 127) || b == 9
}

/// Every byte may stand in a header value read as text.
pub open spec fn all_visible(s: Seq<u8>) -> bool {
    forall|i: int| 0 <= i < s.len() ==> is_visible_ascii(#[trigger] s[i])
}

/// An ASCII decimal digit.
pub open spec fn is_digit(b: u8) -> bool {
    48 <= b && b <= 57
}

/// Every byte is a decimal digit.
pub open spec fn all_digits(s: Seq<u8>) -> bool {
    forall|i: int| 0 <= i < s.len() ==> is_digit(#[trigger] s[i])
}

/// The number that the decimal digits `s` spell.
pub open spec fn digits_value(s: Seq<u8>) -> int
    decreases s.len(),
{
    if s.len() == 0 {
        0
    } else {
        digits_value(s.drop_last()) * 10 + (s.last() - 48)
    }
}

/// `s` without a leading `+`.
pub open spec fn unsigned_digits(s: Seq<u8>) -> Seq<u8> {
    if s.len() > 0 && s[0] == 43 { s.drop_first() } else { s }
}

/// An unsigned decimal number as text: an optional `+`, then one or more
/// digits, of a value that fits in 64 bits.
pub open spec fn parse_u64_spec(s: Seq<u8>) -> Option<u64> {
    let d = unsigned_digits(s);
    if d.len() > 0 && all_digits(d) && digits_value(d) <= u64::MAX {
        Some(digits_value(d) as u64)
    } else {
        None
    }
}

/// The length a `Content-Length` header value gives: none without the
/// header, or when its value is not text or not a 64-bit unsigned number.
pub open spec fn content_length_spec(value: Option<Seq<u8>>) -> Option<u64> {
    match value {
        Some(v) => if all_visible(v) { parse_u64_spec(v) } else { None },
        None => None,
    }
}

/// `*/` stands at position `i` of `s`.
pub open spec fn star_slash_at(s: Seq<u8>, i: int) -> bool {
    0 <= i && i + 1 < s.len() && s[i] == 42 && s[i + 1] == 47
}

/// `*/` stands somewhere in `s`.
pub open spec fn has_star_slash(s: Seq<u8>) -> bool {
    exists|i: int| #[trigger] star_slash_at(s, i)
}

/// A `Content-Range` header value that says the whole content was already
/// sent (`bytes */<length>`): it is text and holds `*/`.
pub open spec fn range_complete_spec(value: Option<Seq<u8>>) -> bool {
    match value {
        Some(v) => all_visible(v) && has_star_slash(v),
        None => false,
    }
}

/// The value of a prefix of digits never exceeds that of a longer prefix.
proof fn lemma_digits_monotone(s: Seq<u8>, i: int, j: int)
    requires
        0 <= i <= j <= s.len(),
        all_digits(s),
    ensures
        0 <= digits_value(s.subrange(0, i)) <= digits_value(s.subrange(0, j)),
    decreases j - i,
{
    if i < j {
        lemma_digits_monotone(s, i, j - 1);
        assert(s.subrange(0, j).drop_last() =~= s.subrange(0, j - 1));
        assert(is_digit(s[j - 1]));
    } else {
        lemma_digits_nonneg(s.subrange(0, i));
    }
}

/// Digits spell a number that is not negative.
proof fn lemma_digits_nonneg(s: Seq<u8>)
    requires
        all_digits(s),
    ensures
        digits_value(s) >= 0,
    decreases s.len(),
{
    if s.len() > 0 {
        assert(all_digits(s.drop_last()));
        lemma_digits_nonneg(s.drop_last());
    }
}

/// Whether every byte may stand in a header value read as text.
pub fn header_text_ok(v: &[u8]) -> (ok: bool)
    ensures
        ok == all_visible(v@),
{
    let mut i: usize = 0;
    while i < v.len()
        invariant
            i <= v.len(),
            forall|k: int| 0 <= k < i ==> is_visible_ascii(#[trigger] v@[k]),
        decreases v.len() - i,
    {
        let b = v[i];
        if !((32 <= b && b < 127) || b == 9) {
            return false;
        }
        i = i + 1;
    }
    true
}

/// Reads an unsigned decimal number, as `str::parse::<u64>` does.
pub fn parse_u64(s: &[u8]) -> (r: Option<u64>)
    ensures
        r == parse_u64_spec(s@),
{
    let start: usize = if s.len() > 0 && s[0] == 43 { 1 } else { 0 };
    let ghost d = unsigned_digits(s@);
    assert(d =~= s@.subrange(start as int, s@.len() as int));
    if start >= s.len() {
        return None;
    }
    let mut acc: u64 = 0;
    let mut i: usize = start;
    while i < s.len()
        invariant
            start <= i <= s.len(),
            start < s.len(),
            d == unsigned_digits(s@),
            d =~= s@.subrange(start as int, s@.len() as int),
            all_digits(d.subrange(0, i - start)),
            acc == digits_value(d.subrange(0, i - start)),
        decreases s.len() - i,
    {
        let b = s[i];
        let ghost k: int = i - start;
        if !(48 <= b && b <= 57) {
            assert(d[k] == b);
            assert(!is_digit(d[k]));
            return None;
        }
        assert(d.subrange(0, k + 1).drop_last() =~= d.subrange(0, k));
        assert(d.subrange(0, k + 1).last() == b);
        assert(d.subrange(0, d.len() as int) =~= d);
        let digit: u64 = (b - 48) as u64;
        match acc.checked_mul(10) {
            Some(m) => match m.checked_add(digit) {
                Some(n) => {
                    acc = n;
                },
                None => {
                    proof {
                        if all_digits(d) {
                            lemma_digits_monotone(d, k + 1, d.len() as int);
                        }
                    }
                    return None;
                },
            },
            None => {
                proof {
                    if all_digits(d) {
                        lemma_digits_monotone(d, k + 1, d.len() as int);
                    }
                }
                return None;
            },
        }
        i = i + 1;
        assert forall|j: int| 0 <= j < i - start implies is_digit(#[trigger] d.subrange(0, i - start)[j]) by {
            if j < k {
                assert(d.subrange(0, i - start)[j] == d.subrange(0, k)[j]);
            }
        }
    }
    assert(d.subrange(0, s.len() - start) =~= d);
    Some(acc)
}

/// The length given by a `Content-Length` header value (`None` when the
/// response had no such header).
pub fn content_length_from_header(value: Option<&[u8]>) -> (len: Option<u64>)
    ensures
        len == content_length_spec(match value { Some(v) => Some(v@), None => None }),
{
    match value {
        Some(v) => if header_text_ok(v) { parse_u64(v) } else { None },
        None => None,
    }
}

/// Whether `*/` stands somewhere in `v`.
fn contains_star_slash(v: &[u8]) -> (found: bool)
    ensures
        found == has_star_slash(v@),
{
    if v.len() < 2 {
        assert forall|k: int| !#[trigger] star_slash_at(v@, k) by {}
        return false;
    }
    let mut i: usize = 0;
    while i < v.len() - 1
        invariant
            v.len() >= 2,
            forall|k: int| 0 <= k < i ==> !#[trigger] star_slash_at(v@, k),
        decreases v.len() - i,
    {
        if v[i] == 42 && v[i + 1] == 47 {
            assert(star_slash_at(v@, i as int));
            return true;
        }
        i = i + 1;
    }
    assert forall|k: int| !#[trigger] star_slash_at(v@, k) by {
        if star_slash_at(v@, k) {
            assert(k < i);
        }
    }
    false
}

/// Whether a `Content-Range` header value says that everything was already
/// sent (`None` when the response had no such header).
pub fn range_reports_complete(value: Option<&[u8]>) -> (done: bool)
    ensures
        done == range_complete_spec(match value { Some(v) => Some(v@), None => None }),
{
    match value {
        Some(v) => header_text_ok(v) && contains_star_slash(v),
        None => false,
    }
}

/// The decimal digits of `n`, most significant first, without leading
/// zeros.
pub open spec fn decimal(n: nat) -> Seq<u8>
    decreases n,
{
    if n < 10 {
        seq![(48 + n) as u8]
    } else {
        decimal(n / 10).push((48 + n % 10) as u8)
    }
}

/// The decimal digits of `n` are digits, at least one, and spell `n`.
pub proof fn lemma_decimal(n: nat)
    ensures
        all_digits(decimal(n)),
        decimal(n).len() > 0,
        is_digit(decimal(n)[0]),
        digits_value(decimal(n)) == n,
    decreases n,
{
    if n >= 10 {
        lemma_decimal(n / 10);
        let d = decimal(n / 10);
        assert(decimal(n).drop_last() =~= d);
        assert(decimal(n)[0] == d[0]);
        assert(n % 10 < 10);
        assert(((48 + n % 10) as u8) == 48 + n % 10);
        assert(decimal(n).last() == 48 + n % 10);
        assert(n == (n / 10) * 10 + n % 10);
        assert(digits_value(decimal(n)) == digits_value(d) * 10 + (decimal(n).last() - 48));
        assert forall|i: int| 0 <= i < decimal(n).len() implies is_digit(#[trigger] decimal(n)[i]) by {
            if i < d.len() {
                assert(decimal(n)[i] == d[i]);
            }
        }
    } else {
        assert(decimal(n).drop_last() =~= Seq::<u8>::empty());
        assert(digits_value(decimal(n)) == digits_value(Seq::<u8>::empty()) * 10 + (decimal(n).last() - 48));
    }
}

/// A length written out in decimal reads back as the same length, both as
/// a number and as a `Content-Length` header value.
pub proof fn law_length_round_trip(n: u64)
    ensures
        parse_u64_spec(decimal(n as nat)) == Some(n),
        content_length_spec(Some(decimal(n as nat))) == Some(n),
{
    lemma_decimal(n as nat);
    let d = decimal(n as nat);
    assert(unsigned_digits(d) == d);
    assert forall|i: int| 0 <= i < d.len() implies is_visible_ascii(#[trigger] d[i]) by {
        assert(is_digit(d[i]));
    }
}

/// A leading `+` does not change the length read.
pub proof fn law_plus_sign_ignored(s: Seq<u8>)
    requires
        s.len() == 0 || s[0] != 43,
    ensures
        parse_u64_spec(seq![43u8] + s) == parse_u64_spec(s),
{
    assert((seq![43u8] + s).drop_first() =~= s);
}

} // verus!
