//! Text and byte-sequence helpers: substring search on bytes and on
//! characters, prefix and suffix tests, search-and-replace, decimal and
//! hexadecimal rendering, and decimal parsing. The transport, the monitor
//! protocol, the command-line preparation and the validation rules all
//! share these.

use vstd::prelude::*;

verus! {

/// The needle occurs in the haystack starting at `i`.
pub open spec fn spec_match_at(haystack: Seq<u8>, needle: Seq<u8>, i: int) -> bool {
    0 <= i && i + needle.len() <= haystack.len() && haystack.subrange(i, i + needle.len())
        == needle
}

/// The needle occurs somewhere in the haystack.
pub open spec fn spec_contains_bytes(haystack: Seq<u8>, needle: Seq<u8>) -> bool {
    exists|i: int| spec_match_at(haystack, needle, i)
}

/// Whether the needle occurs at position `i`.
fn match_at(haystack: &[u8], needle: &[u8], i: usize) -> (r: bool)
    requires
        i + needle@.len() <= haystack@.len(),
    ensures
        r == spec_match_at(haystack@, needle@, i as int),
{
    let hlen = haystack.len();
    let mut k: usize = 0;
    while k < needle.len()
        invariant
            k <= needle@.len(),
            i + needle@.len() <= haystack@.len(),
            hlen == haystack@.len(),
            forall|t: int| 0 <= t < k ==> haystack@[i + t] == needle@[t],
        decreases needle@.len() - k,
    {
        if haystack[i + k] != needle[k] {
            proof {
                assert(haystack@.subrange(i as int, i + needle@.len())[k as int] != needle@[k as int]);
            }
            return false;
        }
        k = k + 1;
    }
    proof {
        assert(haystack@.subrange(i as int, i + needle@.len()) =~= needle@);
    }
    true
}

/// Whether the needle occurs anywhere in the haystack.
pub fn contains_bytes(haystack: &[u8], needle: &[u8]) -> (r: bool)
    ensures
        r == spec_contains_bytes(haystack@, needle@),
{
    if needle.len() > haystack.len() {
        proof {
            assert(forall|i: int| !spec_match_at(haystack@, needle@, i));
        }
        return false;
    }
    if needle.len() == 0 {
        proof {
            assert(haystack@.subrange(0, 0) =~= needle@);
            assert(spec_match_at(haystack@, needle@, 0));
        }
        return true;
    }
    let mut i: usize = 0;
    let last = haystack.len() - needle.len();
    while i <= last
        invariant
            i <= last + 1,
            last == haystack@.len() - needle@.len(),
            1 <= needle@.len() <= haystack@.len(),
            haystack@.len() <= usize::MAX,
            forall|t: int| 0 <= t < i ==> !spec_match_at(haystack@, needle@, t),
        decreases last + 1 - i,
    {
        if match_at(haystack, needle, i) {
            return true;
        }
        i = i + 1;
    }
    proof {
        assert(forall|t: int| spec_match_at(haystack@, needle@, t) ==> 0 <= t <= last);
    }
    false
}

/// Whether the haystack ends with the given suffix.
pub fn ends_with_bytes(haystack: &[u8], suffix: &[u8]) -> (r: bool)
    ensures
        r == (suffix@.len() <= haystack@.len() && haystack@.subrange(
            haystack@.len() - suffix@.len(),
            haystack@.len() as int,
        ) == suffix@),
{
    if suffix.len() > haystack.len() {
        return false;
    }
    let start = haystack.len() - suffix.len();
    let r = match_at(haystack, suffix, start);
    proof {
        if r {
            assert(haystack@.subrange(
                haystack@.len() - suffix@.len(),
                haystack@.len() as int,
            ) =~= haystack@.subrange(start as int, start + suffix@.len()));
        }
    }
    r
}

/// The decimal digit character for `d`.
pub open spec fn spec_digit_char(d: int) -> char {
    if d == 0 {
        '0'
    } else if d == 1 {
        '1'
    } else if d == 2 {
        '2'
    } else if d == 3 {
        '3'
    } else if d == 4 {
        '4'
    } else if d == 5 {
        '5'
    } else if d == 6 {
        '6'
    } else if d == 7 {
        '7'
    } else if d == 8 {
        '8'
    } else {
        '9'
    }
}

/// The decimal rendering of `n`, most significant digit first.
pub open spec fn spec_decimal(n: int) -> Seq<char>
    decreases n,
{
    if n < 10 {
        seq![spec_digit_char(n)]
    } else {
        spec_decimal(n / 10).push(spec_digit_char(n % 10))
    }
}

/// The one-character string for a decimal digit.
fn digit_str(d: u64) -> (s: &'static str)
    requires
        d < 10,
    ensures
        s@ == seq![spec_digit_char(d as int)],
{
    if d == 0 {
        proof {
            reveal_strlit("0");
        }
        "0"
    } else if d == 1 {
        proof {
            reveal_strlit("1");
        }
        "1"
    } else if d == 2 {
        proof {
            reveal_strlit("2");
        }
        "2"
    } else if d == 3 {
        proof {
            reveal_strlit("3");
        }
        "3"
    } else if d == 4 {
        proof {
            reveal_strlit("4");
        }
        "4"
    } else if d == 5 {
        proof {
            reveal_strlit("5");
        }
        "5"
    } else if d == 6 {
        proof {
            reveal_strlit("6");
        }
        "6"
    } else if d == 7 {
        proof {
            reveal_strlit("7");
        }
        "7"
    } else if d == 8 {
        proof {
            reveal_strlit("8");
        }
        "8"
    } else {
        proof {
            reveal_strlit("9");
        }
        "9"
    }
}

/// Render `n` in decimal.
pub fn u64_to_decimal(n: u64) -> (s: String)
    ensures
        s@ == spec_decimal(n as int),
    decreases n,
{
    if n < 10 {
        digit_str(n).to_owned()
    } else {
        let mut s = u64_to_decimal(n / 10);
        s.append(digit_str(n % 10));
        proof {
            assert(s@ =~= spec_decimal(n as int));
        }
        s
    }
}


/// The needle occurs in the character sequence starting at `i`.
pub open spec fn spec_chars_match_at(haystack: Seq<char>, needle: Seq<char>, i: int) -> bool {
    0 <= i && i + needle.len() <= haystack.len() && haystack.subrange(i, i + needle.len())
        == needle
}

/// The first position at or after `i` where the needle occurs.
pub open spec fn spec_first_match_from(haystack: Seq<char>, needle: Seq<char>, i: int) -> Option<
    int,
>
    decreases haystack.len() + 1 - i,
{
    if i < 0 || i + needle.len() > haystack.len() {
        None
    } else if spec_chars_match_at(haystack, needle, i) {
        Some(i)
    } else {
        spec_first_match_from(haystack, needle, i + 1)
    }
}

/// The first position where the needle occurs.
pub open spec fn spec_first_match(haystack: Seq<char>, needle: Seq<char>) -> Option<int> {
    spec_first_match_from(haystack, needle, 0)
}

/// Whether the needle occurs in the haystack at position `i`.
fn str_match_at(haystack: &str, needle: &str, i: usize, hlen: usize, nlen: usize) -> (r: bool)
    requires
        hlen == haystack@.len(),
        nlen == needle@.len(),
        i + nlen <= hlen,
    ensures
        r == spec_chars_match_at(haystack@, needle@, i as int),
{
    let mut k: usize = 0;
    while k < nlen
        invariant
            k <= nlen,
            hlen == haystack@.len(),
            nlen == needle@.len(),
            i + nlen <= hlen,
            forall|t: int| 0 <= t < k ==> haystack@[i + t] == needle@[t],
        decreases nlen - k,
    {
        if haystack.get_char(i + k) != needle.get_char(k) {
            proof {
                assert(haystack@.subrange(i as int, i + needle@.len())[k as int]
                    != needle@[k as int]);
            }
            return false;
        }
        k = k + 1;
    }
    proof {
        assert(haystack@.subrange(i as int, i + needle@.len()) =~= needle@);
    }
    true
}

/// The first occurrence of the needle in the haystack, if any.
pub fn find_str(haystack: &str, needle: &str) -> (r: Option<usize>)
    ensures
        match r {
            Some(i) => spec_first_match(haystack@, needle@) == Some(i as int),
            None => spec_first_match(haystack@, needle@) is None,
        },
{
    let hlen = haystack.unicode_len();
    let nlen = needle.unicode_len();
    if nlen > hlen {
        return None;
    }
    if nlen == 0 {
        proof {
            assert(haystack@.subrange(0, 0) =~= needle@);
        }
        return Some(0);
    }
    let last = hlen - nlen;
    let mut i: usize = 0;
    while i <= last
        invariant
            i <= last + 1,
            last == hlen - nlen,
            1 <= nlen <= hlen,
            hlen == haystack@.len(),
            nlen == needle@.len(),
            spec_first_match(haystack@, needle@) == spec_first_match_from(
                haystack@,
                needle@,
                i as int,
            ),
        decreases last + 1 - i,
    {
        if str_match_at(haystack, needle, i, hlen, nlen) {
            return Some(i);
        }
        i = i + 1;
    }
    None
}

/// The first position at or after `start` holding character `c`, if any.
pub open spec fn spec_first_char_from(s: Seq<char>, c: char, i: int) -> Option<int>
    decreases s.len() - i,
{
    if i < 0 || i >= s.len() {
        None
    } else if s[i] == c {
        Some(i)
    } else {
        spec_first_char_from(s, c, i + 1)
    }
}

/// Find the first occurrence of character `c` at or after `start`.
pub fn find_char_from(s: &str, c: char, start: usize) -> (r: Option<usize>)
    requires
        start <= s@.len(),
    ensures
        match r {
            Some(i) => spec_first_char_from(s@, c, start as int) == Some(i as int),
            None => spec_first_char_from(s@, c, start as int) is None,
        },
{
    let len = s.unicode_len();
    let mut i: usize = start;
    while i < len
        invariant
            i <= len,
            len == s@.len(),
            spec_first_char_from(s@, c, start as int) == spec_first_char_from(s@, c, i as int),
        decreases len - i,
    {
        if s.get_char(i) == c {
            return Some(i);
        }
        i = i + 1;
    }
    None
}

/// The string with every left-to-right, non-overlapping occurrence of
/// `from` (at or after position `i`) replaced by `to`.
pub open spec fn spec_replace_from(s: Seq<char>, from: Seq<char>, to: Seq<char>, i: int) -> Seq<
    char,
>
    decreases s.len() - i,
{
    if i < 0 || i >= s.len() {
        Seq::empty()
    } else if from.len() > 0 && i + from.len() <= s.len() && spec_chars_match_at(s, from, i) {
        to + spec_replace_from(s, from, to, i + from.len())
    } else {
        seq![s[i]] + spec_replace_from(s, from, to, i + 1)
    }
}

/// The string with every occurrence of `from` replaced by `to`.
pub open spec fn spec_replace(s: Seq<char>, from: Seq<char>, to: Seq<char>) -> Seq<char> {
    spec_replace_from(s, from, to, 0)
}

/// Replace every left-to-right, non-overlapping occurrence of `from` in
/// `s` by `to`.
pub fn replace_str(s: &str, from: &str, to: &str) -> (r: String)
    requires
        from@.len() > 0,
    ensures
        r@ == spec_replace(s@, from@, to@),
{
    let slen = s.unicode_len();
    let flen = from.unicode_len();
    let mut out = String::new();
    let mut i: usize = 0;
    while i < slen
        invariant
            i <= slen,
            slen == s@.len(),
            flen == from@.len(),
            flen > 0,
            spec_replace(s@, from@, to@) == out@ + spec_replace_from(s@, from@, to@, i as int),
        decreases slen - i,
    {
        if flen <= slen - i && str_match_at(s, from, i, slen, flen) {
            out.append(to);
            i = i + flen;
        } else {
            out.append(s.substring_char(i, i + 1));
            proof {
                assert(s@.subrange(i as int, i + 1) =~= seq![s@[i as int]]);
            }
            i = i + 1;
        }
    }
    proof {
        assert(out@ + Seq::<char>::empty() =~= out@);
    }
    out
}


/// A decimal rendering has at least one character.
pub proof fn lemma_decimal_nonempty(n: int)
    ensures
        spec_decimal(n).len() >= 1,
    decreases n,
{
    if n >= 10 {
        lemma_decimal_nonempty(n / 10);
    }
}

/// Distinct numbers render to distinct decimal strings.
pub proof fn lemma_decimal_injective(a: int, b: int)
    requires
        0 <= a,
        0 <= b,
        spec_decimal(a) == spec_decimal(b),
    ensures
        a == b,
    decreases a,
{
    lemma_decimal_nonempty(a);
    lemma_decimal_nonempty(b);
    if a < 10 && b < 10 {
        assert(spec_decimal(a)[0] == spec_digit_char(a));
        assert(spec_decimal(b)[0] == spec_digit_char(b));
    } else if a < 10 && b >= 10 {
        lemma_decimal_nonempty(b / 10);
        assert(spec_decimal(b).len() >= 2);
    } else if a >= 10 && b < 10 {
        lemma_decimal_nonempty(a / 10);
        assert(spec_decimal(a).len() >= 2);
    } else {
        let pa = spec_decimal(a / 10);
        let pb = spec_decimal(b / 10);
        assert(pa =~= pa.push(spec_digit_char(a % 10)).drop_last());
        assert(pb =~= pb.push(spec_digit_char(b % 10)).drop_last());
        assert(pa == pb);
        assert(spec_decimal(a).last() == spec_digit_char(a % 10));
        assert(spec_decimal(b).last() == spec_digit_char(b % 10));
        assert(a % 10 == b % 10);
        lemma_decimal_injective(a / 10, b / 10);
    }
}

/// The hexadecimal digit character for `d`.
pub open spec fn spec_hex_digit_char(d: int) -> char {
    if d < 10 {
        spec_digit_char(d)
    } else if d == 10 {
        'a'
    } else if d == 11 {
        'b'
    } else if d == 12 {
        'c'
    } else if d == 13 {
        'd'
    } else if d == 14 {
        'e'
    } else {
        'f'
    }
}

/// The hexadecimal rendering of `n`, most significant digit first, without
/// a prefix.
pub open spec fn spec_hex(n: int) -> Seq<char>
    decreases n,
{
    if n < 16 {
        seq![spec_hex_digit_char(n)]
    } else {
        spec_hex(n / 16).push(spec_hex_digit_char(n % 16))
    }
}

/// The one-character string for a hexadecimal digit.
fn hex_digit_str(d: u64) -> (s: &'static str)
    requires
        d < 16,
    ensures
        s@ == seq![spec_hex_digit_char(d as int)],
{
    if d < 10 {
        digit_str(d)
    } else if d == 10 {
        proof {
            reveal_strlit("a");
        }
        "a"
    } else if d == 11 {
        proof {
            reveal_strlit("b");
        }
        "b"
    } else if d == 12 {
        proof {
            reveal_strlit("c");
        }
        "c"
    } else if d == 13 {
        proof {
            reveal_strlit("d");
        }
        "d"
    } else if d == 14 {
        proof {
            reveal_strlit("e");
        }
        "e"
    } else {
        proof {
            reveal_strlit("f");
        }
        "f"
    }
}

/// Render `n` in hexadecimal, without a prefix.
pub fn u64_to_hex(n: u64) -> (s: String)
    ensures
        s@ == spec_hex(n as int),
    decreases n,
{
    if n < 16 {
        hex_digit_str(n).to_owned()
    } else {
        let mut s = u64_to_hex(n / 16);
        s.append(hex_digit_str(n % 16));
        proof {
            assert(s@ =~= spec_hex(n as int));
        }
        s
    }
}

/// Whether the string starts with the given prefix.
pub fn str_starts_with(s: &str, prefix: &str) -> (r: bool)
    ensures
        r == spec_chars_match_at(s@, prefix@, 0),
{
    let slen = s.unicode_len();
    let plen = prefix.unicode_len();
    if plen > slen {
        false
    } else {
        str_match_at(s, prefix, 0, slen, plen)
    }
}

/// Whether `c` is a decimal digit.
pub open spec fn spec_is_digit(c: char) -> bool {
    48 <= c as int <= 57
}

/// The numeric value of the first `n` characters, read as decimal digits.
pub open spec fn spec_digits_value(s: Seq<char>, n: int) -> int
    decreases n,
{
    if n <= 0 {
        0
    } else {
        spec_digits_value(s, n - 1) * 10 + (s[n - 1] as int - 48)
    }
}

/// The digit part of an unsigned decimal string: everything after an
/// optional leading plus sign.
pub open spec fn spec_u64_digits(s: Seq<char>) -> Seq<char> {
    if s.len() > 0 && s[0] == '+' {
        s.subrange(1, s.len() as int)
    } else {
        s
    }
}

/// An all-digit sequence whose value fits in `u64`.
pub open spec fn spec_is_u64_digits(d: Seq<char>) -> bool {
    &&& d.len() > 0
    &&& (forall|i: int| 0 <= i < d.len() ==> spec_is_digit(d[i]))
    &&& spec_digits_value(d, d.len() as int) <= u64::MAX
}

/// What `u64` accepts as decimal text: an optional plus sign, then at least
/// one digit, with a value that fits.
pub open spec fn spec_is_u64_string(s: Seq<char>) -> bool {
    spec_is_u64_digits(spec_u64_digits(s))
}

/// On an all-digit prefix, the value only grows with more digits.
proof fn lemma_digits_value_mono(d: Seq<char>, a: int, b: int)
    requires
        0 <= a <= b <= d.len(),
        forall|k: int| 0 <= k < b ==> spec_is_digit(d[k]),
    ensures
        0 <= spec_digits_value(d, a),
        spec_digits_value(d, a) <= spec_digits_value(d, b),
    decreases b - a,
{
    lemma_digits_value_nonneg(d, a);
    if a < b {
        lemma_digits_value_mono(d, a, b - 1);
        lemma_digits_value_nonneg(d, b - 1);
    }
}

/// The value of an all-digit prefix is never negative.
proof fn lemma_digits_value_nonneg(d: Seq<char>, b: int)
    requires
        b <= d.len(),
        forall|k: int| 0 <= k < b ==> spec_is_digit(d[k]),
    ensures
        0 <= spec_digits_value(d, b),
    decreases b,
{
    if b > 0 {
        lemma_digits_value_nonneg(d, b - 1);
    }
}

/// Parse an unsigned decimal number the way `u64` reads one: an optional
/// leading plus sign, then at least one digit, rejecting values that do not
/// fit.
pub fn parse_u64(s: &str) -> (r: Option<u64>)
    ensures
        match r {
            Some(v) => spec_is_u64_string(s@) && v as int == spec_digits_value(
                spec_u64_digits(s@),
                spec_u64_digits(s@).len() as int,
            ),
            None => !spec_is_u64_string(s@),
        },
{
    let len = s.unicode_len();
    let start: usize = if len > 0 && s.get_char(0) == '+' {
        1
    } else {
        0
    };
    let ghost d = spec_u64_digits(s@);
    proof {
        assert(d =~= s@.subrange(start as int, len as int));
    }
    if start >= len {
        return None;
    }
    let mut acc: u64 = 0;
    let mut i: usize = start;
    while i < len
        invariant
            start <= i <= len,
            len == s@.len(),
            start < len,
            d == spec_u64_digits(s@),
            d =~= s@.subrange(start as int, len as int),
            forall|k: int| 0 <= k < i - start ==> spec_is_digit(d[k]),
            acc as int == spec_digits_value(d, i - start),
        decreases len - i,
    {
        let c = s.get_char(i);
        let code = c as u32;
        if code < 48 || code > 57 {
            proof {
                assert(d[i - start] == s@[i as int]);
                assert(!spec_is_digit(d[i - start]));
            }
            return None;
        }
        let dval: u64 = (code - 48) as u64;
        proof {
            assert(d[i - start] == s@[i as int]);
        }
        let scaled = match acc.checked_mul(10) {
            Some(x) => x,
            None => {
                proof {
                    lemma_parse_overflow(d, i - start, acc as int, dval as int);
                }
                return None;
            },
        };
        let next = match scaled.checked_add(dval) {
            Some(y) => y,
            None => {
                proof {
                    lemma_parse_overflow(d, i - start, acc as int, dval as int);
                }
                return None;
            },
        };
        acc = next;
        i = i + 1;
    }
    proof {
        assert(i - start == d.len());
    }
    Some(acc)
}

/// If the value after taking one more digit already exceeds `u64`, the
/// whole string's value does too (or some later character is no digit).
proof fn lemma_parse_overflow(d: Seq<char>, k: int, acc: int, dval: int)
    requires
        0 <= k < d.len(),
        acc == spec_digits_value(d, k),
        dval == d[k] as int - 48,
        spec_is_digit(d[k]),
        forall|t: int| 0 <= t < k ==> spec_is_digit(d[t]),
        acc * 10 + dval > u64::MAX,
    ensures
        !spec_is_u64_digits(d),
{
    if forall|t: int| 0 <= t < d.len() ==> spec_is_digit(d[t]) {
        lemma_digits_value_mono(d, k + 1, d.len() as int);
    }
}

} // verus!
