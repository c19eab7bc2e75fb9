//! Verified string helpers: substring containment, prefix tests, decimal
//! and hexadecimal rendering, and ASCII lowercasing.

use vstd::prelude::*;
use vstd::string::StrSliceExecFns;
use vstd::string::StringExecFns;

verus! {

/// `needle` occurs contiguously inside `hay`.
pub open spec fn spec_contains(hay: Seq<char>, needle: Seq<char>) -> bool {
    exists|i: int|
        0 <= i && i + needle.len() <= hay.len() && #[trigger] hay.subrange(i, i + needle.len())
            == needle
}

/// `prefix` is a prefix of `s`.
pub open spec fn spec_starts_with(s: Seq<char>, prefix: Seq<char>) -> bool {
    prefix.len() <= s.len() && s.subrange(0, prefix.len() as int) == prefix
}

/// Compares the slice of `hay` that begins at character `at` with `needle`.
fn matches_at(hay: &str, hay_len: usize, needle: &str, needle_len: usize, at: usize) -> (b: bool)
    requires
        hay_len == hay@.len(),
        needle_len == needle@.len(),
        at + needle_len <= hay_len,
    ensures
        b == (hay@.subrange(at as int, at + needle@.len()) == needle@),
{
    let mut j: usize = 0;
    while j < needle_len
        invariant
            hay_len == hay@.len(),
            needle_len == needle@.len(),
            at + needle_len <= hay_len,
            j <= needle_len,
            forall|k: int| 0 <= k < j ==> hay@[at + k] == needle@[k],
        decreases needle_len - j,
    {
        if hay.get_char(at + j) != needle.get_char(j) {
            assert(hay@.subrange(at as int, at + needle@.len())[j as int] != needle@[j as int]);
            return false;
        }
        j = j + 1;
    }
    assert(hay@.subrange(at as int, at + needle@.len()) =~= needle@);
    true
}

/// Literal containment of `needle` in `hay`, as used by the per-series
/// name gate.
pub fn contains_sub(hay: &str, needle: &str) -> (b: bool)
    ensures
        b == spec_contains(hay@, needle@),
{
    let hay_len = hay.unicode_len();
    let needle_len = needle.unicode_len();
    if needle_len > hay_len {
        return false;
    }
    let limit = hay_len - needle_len;
    let mut i: usize = 0;
    loop
        invariant
            hay_len == hay@.len(),
            needle_len == needle@.len(),
            needle_len <= hay_len,
            limit == hay_len - needle_len,
            i <= limit,
            forall|k: int|
                0 <= k < i ==> #[trigger] hay@.subrange(k, k + needle@.len()) != needle@,
        decreases limit - i,
    {
        if matches_at(hay, hay_len, needle, needle_len, i) {
            return true;
        }
        if i == limit {
            return false;
        }
        i = i + 1;
    }
}

/// Prefix test, character for character.
pub fn starts_with_sub(s: &str, prefix: &str) -> (b: bool)
    ensures
        b == spec_starts_with(s@, prefix@),
{
    let s_len = s.unicode_len();
    let p_len = prefix.unicode_len();
    if p_len > s_len {
        return false;
    }
    matches_at(s, s_len, prefix, p_len, 0)
}

/// String equality on views.
pub fn eq_str(a: &str, b: &str) -> (r: bool)
    ensures
        r == (a@ == b@),
{
    let a_len = a.unicode_len();
    let b_len = b.unicode_len();
    if a_len != b_len {
        return false;
    }
    let m = matches_at(a, a_len, b, b_len, 0);
    proof {
        assert(a@.subrange(0, b@.len() as int) =~= a@);
    }
    m
}

/// The decimal digit `d` as a character; meaningful for `0 <= d <= 9`.
pub open spec fn spec_digit_char(d: int) -> char {
    if d == 0 {
        '0'
    } else if d == 1 {
        '1'
    } else if d == 2 {
        '2'
    } else if d == 3 {
        '3'
    } else if d == 4 {
        '4'
    } else if d == 5 {
        '5'
    } else if d == 6 {
        '6'
    } else if d == 7 {
        '7'
    } else if d == 8 {
        '8'
    } else {
        '9'
    }
}

/// The digits of `n` in base ten, empty when `n <= 0`.
pub open spec fn spec_dec_digits(n: int) -> Seq<char>
    decreases n,
{
    if n <= 0 {
        Seq::empty()
    } else {
        spec_dec_digits(n / 10).push(spec_digit_char(n % 10))
    }
}

/// The usual decimal rendering of a non-negative number.
pub open spec fn spec_u64_dec(n: int) -> Seq<char> {
    if n == 0 {
        seq!['0']
    } else {
        spec_dec_digits(n)
    }
}

/// The usual decimal rendering of a signed number.
pub open spec fn spec_i64_dec(n: int) -> Seq<char> {
    if n < 0 {
        seq!['-'] + spec_u64_dec(-n)
    } else {
        spec_u64_dec(n)
    }
}

fn digit_str(d: u64) -> (r: &'static str)
    requires
        d <= 9,
    ensures
        r@ == seq![spec_digit_char(d as int)],
{
    let r: &'static str = match d {
        0 => "0",
        1 => "1",
        2 => "2",
        3 => "3",
        4 => "4",
        5 => "5",
        6 => "6",
        7 => "7",
        8 => "8",
        _ => "9",
    };
    proof {
        reveal_strlit("0");
        reveal_strlit("1");
        reveal_strlit("2");
        reveal_strlit("3");
        reveal_strlit("4");
        reveal_strlit("5");
        reveal_strlit("6");
        reveal_strlit("7");
        reveal_strlit("8");
        reveal_strlit("9");
        assert(r@ =~= seq![spec_digit_char(d as int)]);
    }
    r
}

/// Renders `n` in decimal.
pub fn u64_to_dec(n: u64) -> (r: String)
    ensures
        r@ == spec_u64_dec(n as int),
{
    if n == 0 {
        let r = "0".to_owned();
        proof {
            reveal_strlit("0");
            assert(r@ =~= seq!['0']);
        }
        return r;
    }
    let mut acc = String::new();
    let mut m = n;
    while m > 0
        invariant
            spec_dec_digits(m as int) + acc@ =~= spec_dec_digits(n as int),
        decreases m,
    {
        let d = m % 10;
        let rest = m / 10;
        proof {
            assert(rest < m) by (nonlinear_arith)
                requires
                    m >= 1,
                    rest == m / 10,
            ;
            assert(spec_dec_digits(m as int) == spec_dec_digits(rest as int).push(
                spec_digit_char(d as int),
            ));
        }
        let piece = String::from_str(digit_str(d));
        let next = piece.concat(acc.as_str());
        assert(next@ =~= seq![spec_digit_char(d as int)] + acc@);
        assert(spec_dec_digits(rest as int) + next@ =~= spec_dec_digits(rest as int).push(
            spec_digit_char(d as int),
        ) + acc@);
        assert(spec_dec_digits(rest as int).push(spec_digit_char(d as int)) + acc@
            =~= spec_dec_digits(m as int) + acc@);
        acc = next;
        m = rest;
    }
    assert(acc@ =~= spec_dec_digits(n as int));
    assert(spec_u64_dec(n as int) == spec_dec_digits(n as int));
    acc
}

/// Renders `n` in decimal with a leading minus sign when negative.
pub fn i64_to_dec(n: i64) -> (r: String)
    ensures
        r@ == spec_i64_dec(n as int),
{
    if n >= 0 {
        let r = u64_to_dec(n as u64);
        return r;
    }
    let mag: u64 = ((-(n + 1)) as u64) + 1;
    assert(mag as int == -(n as int));
    let digits = u64_to_dec(mag);
    let sign = String::from_str("-");
    let r = sign.concat(digits.as_str());
    proof {
        reveal_strlit("-");
        assert(sign@ =~= seq!['-']);
        assert(r@ =~= seq!['-'] + spec_u64_dec(-(n as int)));
    }
    r
}

/// Decimal rendering padded with a leading zero to width two, as `{:02}`
/// renders it.
pub open spec fn spec_pad2(n: int) -> Seq<char> {
    if 0 <= n < 10 {
        seq!['0'] + spec_u64_dec(n)
    } else {
        spec_i64_dec(n)
    }
}

/// Renders `n` like `{:02}`: two digits for `0 <= n < 10`, plain decimal
/// otherwise.
pub fn i64_to_pad2(n: i64) -> (r: String)
    ensures
        r@ == spec_pad2(n as int),
{
    if 0 <= n && n < 10 {
        let zero = String::from_str("0");
        let digits = u64_to_dec(n as u64);
        let r = zero.concat(digits.as_str());
        proof {
            reveal_strlit("0");
            assert(zero@ =~= seq!['0']);
            assert(r@ =~= seq!['0'] + spec_u64_dec(n as int));
        }
        r
    } else {
        i64_to_dec(n)
    }
}

/// The hexadecimal digit `d` as a lowercase character; meaningful for
/// `0 <= d <= 15`.
pub open spec fn spec_hex_char(d: int) -> char {
    if d < 10 {
        spec_digit_char(d)
    } else if d == 10 {
        'a'
    } else if d == 11 {
        'b'
    } else if d == 12 {
        'c'
    } else if d == 13 {
        'd'
    } else if d == 14 {
        'e'
    } else {
        'f'
    }
}

/// Lowercase hexadecimal rendering of a byte string, two digits per byte.
pub open spec fn spec_hex_lower(s: Seq<u8>) -> Seq<char>
    decreases s.len(),
{
    if s.len() == 0 {
        Seq::empty()
    } else {
        spec_hex_lower(s.drop_last()) + seq![
            spec_hex_char(s.last() as int / 16),
            spec_hex_char(s.last() as int % 16),
        ]
    }
}

fn hex_digit_str(d: u8) -> (r: &'static str)
    requires
        d <= 15,
    ensures
        r@ == seq![spec_hex_char(d as int)],
{
    if d <= 9 {
        digit_str(d as u64)
    } else {
        let r: &'static str = match d {
            10 => "a",
            11 => "b",
            12 => "c",
            13 => "d",
            14 => "e",
            _ => "f",
        };
        proof {
            reveal_strlit("a");
            reveal_strlit("b");
            reveal_strlit("c");
            reveal_strlit("d");
            reveal_strlit("e");
            reveal_strlit("f");
            assert(r@ =~= seq![spec_hex_char(d as int)]);
        }
        r
    }
}

/// Renders a byte string as lowercase hexadecimal.
pub fn hex_lower(bytes: &[u8]) -> (r: String)
    ensures
        r@ == spec_hex_lower(bytes@),
{
    let mut r = String::new();
    let mut i: usize = 0;
    while i < bytes.len()
        invariant
            i <= bytes@.len(),
            r@ =~= spec_hex_lower(bytes@.subrange(0, i as int)),
        decreases bytes@.len() - i,
    {
        let b = bytes[i];
        let hi = b / 16;
        let lo = b % 16;
        let mut next = r;
        next.append(hex_digit_str(hi));
        next.append(hex_digit_str(lo));
        proof {
            let done = bytes@.subrange(0, i + 1);
            assert(done.drop_last() =~= bytes@.subrange(0, i as int));
            assert(done.last() == bytes@[i as int]);
            assert(next@ =~= spec_hex_lower(done));
        }
        r = next;
        i = i + 1;
    }
    assert(bytes@.subrange(0, bytes@.len() as int) =~= bytes@);
    r
}

/// ASCII lowercasing of one character: `'A'..='Z'` map to their lowercase
/// counterparts, every other character is unchanged.
pub open spec fn spec_ascii_lower_char(c: char) -> char {
    match c {
        'A' => 'a',
        'B' => 'b',
        'C' => 'c',
        'D' => 'd',
        'E' => 'e',
        'F' => 'f',
        'G' => 'g',
        'H' => 'h',
        'I' => 'i',
        'J' => 'j',
        'K' => 'k',
        'L' => 'l',
        'M' => 'm',
        'N' => 'n',
        'O' => 'o',
        'P' => 'p',
        'Q' => 'q',
        'R' => 'r',
        'S' => 's',
        'T' => 't',
        'U' => 'u',
        'V' => 'v',
        'W' => 'w',
        'X' => 'x',
        'Y' => 'y',
        'Z' => 'z',
        _ => c,
    }
}

/// ASCII lowercasing of a character string.
pub open spec fn spec_ascii_lower(s: Seq<char>) -> Seq<char> {
    s.map_values(|c: char| spec_ascii_lower_char(c))
}

fn ascii_lower_char_str(c: char) -> (r: Option<&'static str>)
    ensures
        match r {
            Some(t) => t@ == seq![spec_ascii_lower_char(c)] && spec_ascii_lower_char(c) != c,
            None => spec_ascii_lower_char(c) == c,
        },
{
    let r: Option<&'static str> = match c {
        'A' => Some("a"),
        'B' => Some("b"),
        'C' => Some("c"),
        'D' => Some("d"),
        'E' => Some("e"),
        'F' => Some("f"),
        'G' => Some("g"),
        'H' => Some("h"),
        'I' => Some("i"),
        'J' => Some("j"),
        'K' => Some("k"),
        'L' => Some("l"),
        'M' => Some("m"),
        'N' => Some("n"),
        'O' => Some("o"),
        'P' => Some("p"),
        'Q' => Some("q"),
        'R' => Some("r"),
        'S' => Some("s"),
        'T' => Some("t"),
        'U' => Some("u"),
        'V' => Some("v"),
        'W' => Some("w"),
        'X' => Some("x"),
        'Y' => Some("y"),
        'Z' => Some("z"),
        _ => None,
    };
    proof {
        reveal_strlit("a");
        reveal_strlit("b");
        reveal_strlit("c");
        reveal_strlit("d");
        reveal_strlit("e");
        reveal_strlit("f");
        reveal_strlit("g");
        reveal_strlit("h");
        reveal_strlit("i");
        reveal_strlit("j");
        reveal_strlit("k");
        reveal_strlit("l");
        reveal_strlit("m");
        reveal_strlit("n");
        reveal_strlit("o");
        reveal_strlit("p");
        reveal_strlit("q");
        reveal_strlit("r");
        reveal_strlit("s");
        reveal_strlit("t");
        reveal_strlit("u");
        reveal_strlit("v");
        reveal_strlit("w");
        reveal_strlit("x");
        reveal_strlit("y");
        reveal_strlit("z");
    }
    r
}

/// Lowercases the ASCII letters of `s`, leaving every other character as
/// it stands.
pub fn ascii_lower(s: &str) -> (r: String)
    ensures
        r@ == spec_ascii_lower(s@),
{
    let len = s.unicode_len();
    let mut r = String::new();
    let mut i: usize = 0;
    while i < len
        invariant
            len == s@.len(),
            i <= len,
            r@ =~= spec_ascii_lower(s@.subrange(0, i as int)),
        decreases len - i,
    {
        let c = s.get_char(i);
        match ascii_lower_char_str(c) {
            Some(t) => {
                r.append(t);
            },
            None => {
                let piece = s.substring_char(i, i + 1);
                r.append(piece);
            },
        }
        proof {
            assert(spec_ascii_lower(s@.subrange(0, i + 1)) =~= spec_ascii_lower(
                s@.subrange(0, i as int),
            ) + seq![spec_ascii_lower_char(s@[i as int])]);
            assert(r@ =~= spec_ascii_lower(s@.subrange(0, i + 1)));
        }
        i = i + 1;
    }
    assert(s@.subrange(0, s@.len() as int) =~= s@);
    r
}

/// Concatenation of two string slices.
pub fn concat_str(a: &str, b: &str) -> (r: String)
    ensures
        r@ == a@ + b@,
{
    let s = String::from_str(a);
    s.concat(b)
}

} // verus!
