//! Decimal numbers and small string operations over `Seq<char>` models.

use vstd::prelude::*;
use vstd::string::*;

verus! {

/// `c` is one of the ASCII digits `0`..`9`.
pub open spec fn is_digit(c: char) -> bool {
    48 <= (c as u32) && (c as u32) <= 57
}

/// The value of an ASCII digit.
pub open spec fn digit_value(c: char) -> nat {
    ((c as u32) - 48) as nat
}

/// Every character of `s` is an ASCII digit.
pub open spec fn all_digits(s: Seq<char>) -> bool {
    forall|i: int| 0 <= i < s.len() ==> #[trigger] is_digit(s[i])
}

/// The number written by the decimal digits `s` (leading zeros allowed).
pub open spec fn digits_value(s: Seq<char>) -> nat
    decreases s.len(),
{
    if s.len() == 0 {
        0
    } else {
        digits_value(s.drop_last()) * 10 + digit_value(s.last())
    }
}

/// `s` without the single leading `+` that unsigned integer parsing accepts.
pub open spec fn unsigned_body(s: Seq<char>) -> Seq<char> {
    if s.len() > 0 && s[0] == '+' {
        s.drop_first()
    } else {
        s
    }
}

/// What parsing `s` as an unsigned integer no greater than `max` yields, the way
/// `FromStr` does for Rust's unsigned integer types: an optional `+`, then one or
/// more ASCII digits whose value does not exceed `max`.
pub open spec fn parse_unsigned(s: Seq<char>, max: nat) -> Option<nat> {
    let d = unsigned_body(s);
    if d.len() > 0 && all_digits(d) && digits_value(d) <= max {
        Some(digits_value(d))
    } else {
        None
    }
}

/// `s.parse::<u16>().ok()`.
pub open spec fn spec_parse_u16(s: Seq<char>) -> Option<u16> {
    match parse_unsigned(s, 65535) {
        Some(v) => Some(v as u16),
        None => None,
    }
}

/// `s.parse::<u32>().ok()`.
pub open spec fn spec_parse_u32(s: Seq<char>) -> Option<u32> {
    match parse_unsigned(s, 4294967295) {
        Some(v) => Some(v as u32),
        None => None,
    }
}

/// The ASCII digit for `d < 10`.
pub open spec fn digit_char(d: nat) -> char {
    if d == 0 { '0' }
    else if d == 1 { '1' }
    else if d == 2 { '2' }
    else if d == 3 { '3' }
    else if d == 4 { '4' }
    else if d == 5 { '5' }
    else if d == 6 { '6' }
    else if d == 7 { '7' }
    else if d == 8 { '8' }
    else { '9' }
}

/// The decimal representation of `n`, without leading zeros, as `to_string` writes it.
pub open spec fn decimal(n: nat) -> Seq<char>
    decreases n,
{
    if n < 10 {
        seq![digit_char(n)]
    } else {
        decimal(n / 10).push(digit_char(n % 10))
    }
}

/// A prefix of a run of digits is worth no more than the whole run.
pub proof fn lemma_digits_prefix_value(d: Seq<char>, k: int)
    requires
        all_digits(d),
        0 <= k <= d.len(),
    ensures
        digits_value(d.subrange(0, k)) <= digits_value(d),
    decreases d.len(),
{
    if k < d.len() {
        let shorter = d.drop_last();
        assert(shorter.subrange(0, k) =~= d.subrange(0, k));
        assert(all_digits(shorter)) by {
            assert forall|i: int| 0 <= i < shorter.len() implies #[trigger] is_digit(shorter[i]) by {
                assert(is_digit(d[i]));
            }
        }
        lemma_digits_prefix_value(shorter, k);
    } else {
        assert(d.subrange(0, k) =~= d);
    }
}

/// `digit_char` and `digit_value` invert each other on `0..10`.
pub proof fn lemma_digit_char(d: nat)
    requires
        d < 10,
    ensures
        is_digit(digit_char(d)),
        digit_value(digit_char(d)) == d,
{
}

/// The digits of `decimal(n)`: a non-empty run of ASCII digits worth `n`.
pub proof fn lemma_decimal_digits(n: nat)
    ensures
        decimal(n).len() > 0,
        all_digits(decimal(n)),
        digits_value(decimal(n)) == n,
    decreases n,
{
    if n < 10 {
        lemma_digit_char(n);
        assert(decimal(n).drop_last() =~= Seq::<char>::empty());
        assert(digits_value(decimal(n).drop_last()) == 0);
        assert(decimal(n).last() == digit_char(n));
    } else {
        lemma_digit_char(n % 10);
        lemma_decimal_digits(n / 10);
        let d = decimal(n);
        assert(d.drop_last() =~= decimal(n / 10));
        assert(d.last() == digit_char(n % 10));
        assert((n / 10) * 10 + n % 10 == n);
        assert forall|i: int| 0 <= i < d.len() implies #[trigger] is_digit(d[i]) by {
            if i < d.len() - 1 {
                assert(d[i] == decimal(n / 10)[i]);
            }
        }
    }
}

/// Parsing the decimal representation of a number gives the number back.
pub proof fn lemma_parse_decimal(n: nat, max: nat)
    requires
        n <= max,
    ensures
        parse_unsigned(decimal(n), max) == Some(n),
{
    lemma_decimal_digits(n);
    assert(is_digit(decimal(n)[0]));
}

/// Formatting a `u16` and parsing the text back gives the same `u16`.
pub proof fn lemma_u16_decimal_roundtrip(n: u16)
    ensures
        spec_parse_u16(decimal(n as nat)) == Some(n),
{
    lemma_parse_decimal(n as nat, 65535);
}

/// Formatting a `u32` and parsing the text back gives the same `u32`.
pub proof fn lemma_u32_decimal_roundtrip(n: u32)
    ensures
        spec_parse_u32(decimal(n as nat)) == Some(n),
{
    lemma_parse_decimal(n as nat, 4294967295);
}

/// Extending a run of digits by one digit.
proof fn lemma_digits_push(s: Seq<char>, lo: int, hi: int)
    requires
        0 <= lo <= hi < s.len(),
    ensures
        digits_value(s.subrange(lo, hi + 1)) == digits_value(s.subrange(lo, hi)) * 10
            + digit_value(s[hi]),
{
    assert(s.subrange(lo, hi + 1).drop_last() =~= s.subrange(lo, hi));
}

pub fn is_ascii_digit(c: char) -> (r: bool)
    ensures
        r == is_digit(c),
{
    c >= '0' && c <= '9'
}

/// Parses `s` as an unsigned integer no greater than `max`.
fn parse_unsigned_str(s: &str, max: u32) -> (r: Option<u32>)
    ensures
        match r {
            Some(v) => parse_unsigned(s@, max as nat) == Some(v as nat),
            None => parse_unsigned(s@, max as nat) is None,
        },
{
    let n = s.unicode_len();
    let mut start: usize = 0;
    if n > 0 && s.get_char(0) == '+' {
        start = 1;
    }
    let ghost d = unsigned_body(s@);
    assert(d =~= s@.subrange(start as int, n as int));
    if start == n {
        return None;
    }
    let mut i: usize = start;
    let mut acc: u64 = 0;
    assert(s@.subrange(start as int, start as int) =~= Seq::<char>::empty());
    while i < n
        invariant
            start <= i <= n,
            n == s@.len(),
            d =~= s@.subrange(start as int, n as int),
            d == unsigned_body(s@),
            acc == digits_value(s@.subrange(start as int, i as int)),
            acc <= max,
            all_digits(s@.subrange(start as int, i as int)),
        decreases n - i,
    {
        let c = s.get_char(i);
        if !is_ascii_digit(c) {
            assert(d[i - start] == c);
            assert(!is_digit(d[i - start]));
            return None;
        }
        proof {
            lemma_digits_push(s@, start as int, i as int);
            assert forall|j: int| 0 <= j < i + 1 - start implies #[trigger] is_digit(
                s@.subrange(start as int, i + 1)[j],
            ) by {
                if j < i - start {
                    assert(s@.subrange(start as int, i + 1)[j] == s@.subrange(
                        start as int,
                        i as int,
                    )[j]);
                }
            }
        }
        acc = acc * 10 + ((c as u32) - 48) as u64;
        if acc > max as u64 {
            proof {
                if all_digits(d) {
                    lemma_digits_prefix_value(d, i + 1 - start);
                    assert(d.subrange(0, i + 1 - start) =~= s@.subrange(start as int, i + 1));
                }
            }
            return None;
        }
        i = i + 1;
    }
    Some(acc as u32)
}

/// `s.parse::<u16>().ok()`: an optional `+` and decimal digits worth at most 65535.
pub fn parse_u16(s: &str) -> (r: Option<u16>)
    ensures
        r == spec_parse_u16(s@),
{
    match parse_unsigned_str(s, 65535) {
        Some(v) => Some(v as u16),
        None => None,
    }
}

/// `s.parse::<u32>().ok()`.
pub fn parse_u32(s: &str) -> (r: Option<u32>)
    ensures
        r == spec_parse_u32(s@),
{
    parse_unsigned_str(s, 4294967295)
}

/// The one-character string of the digit `d`.
fn digit_str(d: u32) -> (r: &'static str)
    requires
        d < 10,
    ensures
        r@ == seq![digit_char(d as nat)],
{
    let digits = "0123456789";
    proof {
        reveal_strlit("0123456789");
    }
    let r = digits.substring_char(d as usize, d as usize + 1);
    assert(r@ =~= seq![digit_char(d as nat)]) by {
        assert(r@[0] == digits@[d as int]);
    }
    r
}

/// `n.to_string()`: the decimal digits of `n`.
pub fn decimal_string(n: u32) -> (r: String)
    ensures
        r@ == decimal(n as nat),
    decreases n,
{
    if n < 10 {
        String::from_str(digit_str(n))
    } else {
        let mut r = decimal_string(n / 10);
        r.append(digit_str(n % 10));
        r
    }
}

/// `i` is the first position of `c` in `s`.
pub open spec fn is_first(s: Seq<char>, c: char, i: int) -> bool {
    &&& 0 <= i < s.len()
    &&& s[i] == c
    &&& forall|j: int| 0 <= j < i ==> s[j] != c
}

/// `i` is the last position of `c` in `s`.
pub open spec fn is_last(s: Seq<char>, c: char, i: int) -> bool {
    &&& 0 <= i < s.len()
    &&& s[i] == c
    &&& forall|j: int| i < j < s.len() ==> s[j] != c
}

/// `str::split_once(c)`: the text before and after the first `c`.
pub open spec fn split_once(s: Seq<char>, c: char) -> Option<(Seq<char>, Seq<char>)> {
    if exists|i: int| is_first(s, c, i) {
        let i = choose|i: int| is_first(s, c, i);
        Some((s.subrange(0, i), s.subrange(i + 1, s.len() as int)))
    } else {
        None
    }
}

/// `str::rsplit_once(c)`: the text before and after the last `c`.
pub open spec fn rsplit_once(s: Seq<char>, c: char) -> Option<(Seq<char>, Seq<char>)> {
    if exists|i: int| is_last(s, c, i) {
        let i = choose|i: int| is_last(s, c, i);
        Some((s.subrange(0, i), s.subrange(i + 1, s.len() as int)))
    } else {
        None
    }
}

/// `pat` occurs in `s` at position `i`.
pub open spec fn occurs_at(s: Seq<char>, pat: Seq<char>, i: int) -> bool {
    0 <= i && i + pat.len() <= s.len() && s.subrange(i, i + pat.len()) == pat
}

/// `str::contains(pat)`.
pub open spec fn contains_text(s: Seq<char>, pat: Seq<char>) -> bool {
    exists|i: int| #[trigger] occurs_at(s, pat, i)
}

/// Two positions that are both first are the same position.
pub proof fn lemma_first_unique(s: Seq<char>, c: char, i: int, j: int)
    requires
        is_first(s, c, i),
        is_first(s, c, j),
    ensures
        i == j,
{
}

/// Two positions that are both last are the same position.
pub proof fn lemma_last_unique(s: Seq<char>, c: char, i: int, j: int)
    requires
        is_last(s, c, i),
        is_last(s, c, j),
    ensures
        i == j,
{
}

/// Whether the two strings hold the same characters.
pub fn str_equal(a: &str, b: &str) -> (r: bool)
    ensures
        r == (a@ == b@),
{
    let n = a.unicode_len();
    if n != b.unicode_len() {
        return false;
    }
    let mut i: usize = 0;
    while i < n
        invariant
            i <= n,
            n == a@.len(),
            n == b@.len(),
            forall|j: int| 0 <= j < i ==> a@[j] == b@[j],
        decreases n - i,
    {
        if a.get_char(i) != b.get_char(i) {
            return false;
        }
        i = i + 1;
    }
    assert(a@ =~= b@);
    true
}

/// The position of the first `c` in `s`, if any.
pub fn find_char(s: &str, c: char) -> (r: Option<usize>)
    ensures
        match r {
            Some(i) => is_first(s@, c, i as int),
            None => forall|j: int| 0 <= j < s@.len() ==> s@[j] != c,
        },
{
    let n = s.unicode_len();
    let mut i: usize = 0;
    while i < n
        invariant
            i <= n,
            n == s@.len(),
            forall|j: int| 0 <= j < i ==> s@[j] != c,
        decreases n - i,
    {
        if s.get_char(i) == c {
            return Some(i);
        }
        i = i + 1;
    }
    None
}

/// The position of the last `c` in `s`, if any.
pub fn rfind_char(s: &str, c: char) -> (r: Option<usize>)
    ensures
        match r {
            Some(i) => is_last(s@, c, i as int),
            None => forall|j: int| 0 <= j < s@.len() ==> s@[j] != c,
        },
{
    let n = s.unicode_len();
    let mut i: usize = n;
    while i > 0
        invariant
            i <= n,
            n == s@.len(),
            forall|j: int| i <= j < n ==> s@[j] != c,
        decreases i,
    {
        if s.get_char(i - 1) == c {
            return Some(i - 1);
        }
        i = i - 1;
    }
    None
}

/// `s.split_once(c)`.
pub fn split_once_str<'a>(s: &'a str, c: char) -> (r: Option<(&'a str, &'a str)>)
    ensures
        match r {
            Some((a, b)) => split_once(s@, c) == Some((a@, b@)),
            None => split_once(s@, c) is None,
        },
{
    match find_char(s, c) {
        Some(i) => {
            let n = s.unicode_len();
            let a = s.substring_char(0, i);
            let b = s.substring_char(i + 1, n);
            proof {
                let k = choose|k: int| is_first(s@, c, k);
                lemma_first_unique(s@, c, i as int, k);
            }
            Some((a, b))
        },
        None => None,
    }
}

/// `s.rsplit_once(c)`.
pub fn rsplit_once_str<'a>(s: &'a str, c: char) -> (r: Option<(&'a str, &'a str)>)
    ensures
        match r {
            Some((a, b)) => rsplit_once(s@, c) == Some((a@, b@)),
            None => rsplit_once(s@, c) is None,
        },
{
    match rfind_char(s, c) {
        Some(i) => {
            let n = s.unicode_len();
            let a = s.substring_char(0, i);
            let b = s.substring_char(i + 1, n);
            proof {
                let k = choose|k: int| is_last(s@, c, k);
                lemma_last_unique(s@, c, i as int, k);
            }
            Some((a, b))
        },
        None => None,
    }
}

/// Whether every character of `s` is an ASCII digit (true for the empty string).
pub fn all_ascii_digits(s: &str) -> (r: bool)
    ensures
        r == all_digits(s@),
{
    let n = s.unicode_len();
    let mut i: usize = 0;
    while i < n
        invariant
            i <= n,
            n == s@.len(),
            forall|j: int| 0 <= j < i ==> is_digit(#[trigger] s@[j]),
        decreases n - i,
    {
        if !is_ascii_digit(s.get_char(i)) {
            return false;
        }
        i = i + 1;
    }
    true
}

/// Whether `s` ends with the character `c`.
pub fn ends_with_char(s: &str, c: char) -> (r: bool)
    ensures
        r == (s@.len() > 0 && s@.last() == c),
{
    let n = s.unicode_len();
    n > 0 && s.get_char(n - 1) == c
}

/// Whether `s` starts with the character `c`.
pub fn starts_with_char(s: &str, c: char) -> (r: bool)
    ensures
        r == (s@.len() > 0 && s@[0] == c),
{
    let n = s.unicode_len();
    n > 0 && s.get_char(0) == c
}

/// Whether `pat` occurs at position `i` of `s`.
fn occurs_at_str(s: &str, pat: &str, i: usize) -> (r: bool)
    requires
        i + pat@.len() <= s@.len(),
    ensures
        r == occurs_at(s@, pat@, i as int),
{
    let m = pat.unicode_len();
    let n = s.unicode_len();
    let mut k: usize = 0;
    while k < m
        invariant
            k <= m,
            m == pat@.len(),
            n == s@.len(),
            i + m <= n,
            forall|j: int| 0 <= j < k ==> s@[i + j] == pat@[j],
        decreases m - k,
    {
        if s.get_char(i + k) != pat.get_char(k) {
            assert(s@.subrange(i as int, i + m)[k as int] != pat@[k as int]);
            return false;
        }
        k = k + 1;
    }
    assert(s@.subrange(i as int, i + m) =~= pat@);
    true
}

/// `s.contains(pat)`.
pub fn contains_str(s: &str, pat: &str) -> (r: bool)
    ensures
        r == contains_text(s@, pat@),
{
    let n = s.unicode_len();
    let m = pat.unicode_len();
    if m > n {
        return false;
    }
    if m == 0 {
        assert(s@.subrange(0, 0) =~= pat@);
        assert(occurs_at(s@, pat@, 0));
        return true;
    }
    let mut i: usize = 0;
    while i <= n - m
        invariant
            i <= n - m + 1,
            n == s@.len(),
            m == pat@.len(),
            1 <= m <= n,
            forall|j: int| 0 <= j < i ==> !occurs_at(s@, pat@, j),
        decreases n - m + 1 - i,
    {
        if occurs_at_str(s, pat, i) {
            return true;
        }
        i = i + 1;
    }
    false
}

} // verus!
