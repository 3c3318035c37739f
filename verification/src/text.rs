//! Character-level helpers shared by the wire parser, the sidecar
//! protocol codec and the path builders.

use vstd::prelude::*;

verus! {

/// Relies on `String::push` from std: appends exactly the one character
/// to the end of the string.
#[verifier::external_body]
pub(crate) fn push_char(s: &mut String, c: char)
    ensures
        final(s)@ == old(s)@.push(c),
{
    s.push(c)
}

/// The ASCII digit for a value below ten.
pub open spec fn spec_digit_char(d: int) -> char
    recommends
        0 <= d <= 9,
{
    if d == 0 {
        '0'
    } else if d == 1 {
        '1'
    } else if d == 2 {
        '2'
    } else if d == 3 {
        '3'
    } else if d == 4 {
        '4'
    } else if d == 5 {
        '5'
    } else if d == 6 {
        '6'
    } else if d == 7 {
        '7'
    } else if d == 8 {
        '8'
    } else {
        '9'
    }
}

/// The ASCII digit for a value below ten.
pub fn digit_char(d: u8) -> (c: char)
    requires
        d <= 9,
    ensures
        c == spec_digit_char(d as int),
{
    match d {
        0 => '0',
        1 => '1',
        2 => '2',
        3 => '3',
        4 => '4',
        5 => '5',
        6 => '6',
        7 => '7',
        8 => '8',
        _ => '9',
    }
}

/// The decimal rendering of a byte, without leading zeros.
pub open spec fn spec_dec_u8(n: u8) -> Seq<char> {
    if n < 10 {
        seq![spec_digit_char(n as int)]
    } else if n < 100 {
        seq![spec_digit_char(n as int / 10), spec_digit_char(n as int % 10)]
    } else {
        seq![
            spec_digit_char(n as int / 100),
            spec_digit_char((n as int / 10) % 10),
            spec_digit_char(n as int % 10),
        ]
    }
}

/// Appends the decimal rendering of a byte to a string.
pub fn push_dec_u8(s: &mut String, n: u8)
    ensures
        final(s)@ == old(s)@ + spec_dec_u8(n),
{
    if n >= 100 {
        push_char(s, digit_char(n / 100));
    }
    if n >= 10 {
        push_char(s, digit_char((n / 10) % 10));
    }
    push_char(s, digit_char(n % 10));
    proof {
        if n < 10 {
            assert(old(s)@.push(spec_digit_char(n as int)) =~= old(s)@ + spec_dec_u8(n));
        } else if n < 100 {
            assert(old(s)@.push(spec_digit_char(n as int / 10)).push(
                spec_digit_char(n as int % 10),
            ) =~= old(s)@ + spec_dec_u8(n));
        } else {
            assert(old(s)@.push(spec_digit_char(n as int / 100)).push(
                spec_digit_char((n as int / 10) % 10),
            ).push(spec_digit_char(n as int % 10)) =~= old(s)@ + spec_dec_u8(n));
        }
    }
}

/// Whether a character is an ASCII digit.
pub open spec fn is_digit_char(c: char) -> bool {
    '0' <= c <= '9'
}

/// The numeric value of an ASCII digit.
pub open spec fn digit_val(c: char) -> int {
    c as int - 48
}

/// Reads a character as a digit, if it is one.
pub fn char_digit(c: char) -> (r: Option<u8>)
    ensures
        r is Some <==> is_digit_char(c),
        r matches Some(d) ==> d as int == digit_val(c) && d <= 9,
{
    match c {
        '0' => Some(0),
        '1' => Some(1),
        '2' => Some(2),
        '3' => Some(3),
        '4' => Some(4),
        '5' => Some(5),
        '6' => Some(6),
        '7' => Some(7),
        '8' => Some(8),
        '9' => Some(9),
        _ => None,
    }
}

/// The decimal rendering of a nonnegative number, without leading zeros.
pub open spec fn spec_dec_chars(n: int) -> Seq<char>
    recommends
        n >= 0,
    decreases n,
{
    if n < 10 {
        seq![spec_digit_char(n)]
    } else {
        spec_dec_chars(n / 10).push(spec_digit_char(n % 10))
    }
}

/// Every character of a decimal rendering is a digit.
pub proof fn lemma_dec_chars_digits(n: int)
    requires
        n >= 0,
    ensures
        spec_dec_chars(n).len() >= 1,
        forall|i: int|
            0 <= i < spec_dec_chars(n).len() ==> is_digit_char(#[trigger] spec_dec_chars(n)[i]),
    decreases n,
{
    if n >= 10 {
        lemma_dec_chars_digits(n / 10);
    }
}

/// Ten to a small power.
pub open spec fn spec_pow10(k: int) -> int
    decreases k,
{
    if k <= 0 {
        1
    } else {
        10 * spec_pow10(k - 1)
    }
}

/// A number below 10^15 renders to at most 15 digits.
pub proof fn lemma_dec_chars_len(n: int)
    requires
        0 <= n < 1_000_000_000_000_000,
    ensures
        spec_dec_chars(n).len() <= 15,
{
    assert(spec_pow10(15) == 1_000_000_000_000_000) by {
        reveal_with_fuel(spec_pow10, 17);
    }
    lemma_dec_chars_len_below(n, 15);
}

/// A number below 10^k renders to at most k digits.
proof fn lemma_dec_chars_len_below(n: int, k: int)
    requires
        1 <= k,
        0 <= n,
        n < spec_pow10(k),
    ensures
        spec_dec_chars(n).len() <= k,
    decreases k,
{
    if n < 10 {
    } else {
        let p = spec_pow10(k - 1);
        assert(p >= 1) by {
            lemma_pow10_positive(k - 1);
        }
        if k == 1 {
        } else {
            assert(n / 10 < p) by (nonlinear_arith)
                requires
                    n < 10 * p,
                    0 <= n,
                    p >= 1,
            ;
            lemma_dec_chars_len_below(n / 10, k - 1);
        }
    }
}

/// Ten to any power is positive.
pub proof fn lemma_pow10_positive(k: int)
    ensures
        spec_pow10(k) >= 1,
    decreases k,
{
    if k > 0 {
        lemma_pow10_positive(k - 1);
    }
}

/// Powers of ten grow with the exponent.
pub proof fn lemma_pow10_le(a: int, b: int)
    requires
        a <= b,
    ensures
        spec_pow10(a) <= spec_pow10(b),
    decreases b - a,
{
    if a < b {
        lemma_pow10_le(a, b - 1);
        lemma_pow10_positive(b - 1);
    }
}

/// The value of a digit string, most significant first.
pub open spec fn digits_value(s: Seq<char>) -> int
    decreases s.len(),
{
    if s.len() == 0 {
        0
    } else {
        digits_value(s.drop_last()) * 10 + digit_val(s.last())
    }
}

/// Reading a rendering back gives the number: rendering and value are
/// inverse.
pub proof fn lemma_digits_value_of_dec(n: int)
    requires
        n >= 0,
    ensures
        digits_value(spec_dec_chars(n)) == n,
    decreases n,
{
    assert(digits_value(Seq::<char>::empty()) == 0);
    if n < 10 {
        assert(spec_dec_chars(n).drop_last() =~= Seq::<char>::empty());
        assert(spec_dec_chars(n).last() == spec_digit_char(n));
        assert(digit_val(spec_digit_char(n)) == n);
    } else {
        lemma_digits_value_of_dec(n / 10);
        assert(spec_dec_chars(n).drop_last() =~= spec_dec_chars(n / 10));
        assert(spec_dec_chars(n).last() == spec_digit_char(n % 10));
        assert(digit_val(spec_digit_char(n % 10)) == n % 10);
    }
}

/// The value of a digit string is nonnegative and below ten to its
/// length.
pub proof fn lemma_digits_value_bound(s: Seq<char>)
    requires
        forall|j: int| 0 <= j < s.len() ==> is_digit_char(#[trigger] s[j]),
    ensures
        0 <= digits_value(s) < spec_pow10(s.len() as int),
    decreases s.len(),
{
    if s.len() == 0 {
    } else {
        assert forall|j: int| 0 <= j < s.drop_last().len() implies is_digit_char(
            #[trigger] s.drop_last()[j],
        ) by {
            assert(s.drop_last()[j] == s[j]);
        }
        lemma_digits_value_bound(s.drop_last());
        assert(is_digit_char(s.last()));
        assert(0 <= digit_val(s.last()) <= 9);
    }
}

/// How many digits a string starts with.
pub open spec fn leading_digit_count(s: Seq<char>) -> int
    decreases s.len(),
{
    if s.len() == 0 || !is_digit_char(s[0]) {
        0
    } else {
        1 + leading_digit_count(s.drop_first())
    }
}

/// A string whose first `c` characters are digits, and whose character
/// `c` (if any) is not, starts with exactly `c` digits.
pub proof fn lemma_leading_digit_count(s: Seq<char>, c: int)
    requires
        0 <= c <= s.len(),
        forall|j: int| 0 <= j < c ==> is_digit_char(#[trigger] s[j]),
        c < s.len() ==> !is_digit_char(s[c]),
    ensures
        leading_digit_count(s) == c,
    decreases s.len(),
{
    if c == 0 {
    } else {
        lemma_leading_digit_count(s.drop_first(), c - 1);
    }
}

/// Appends the decimal rendering of a number.
pub fn push_dec_u64(s: &mut String, n: u64)
    ensures
        final(s)@ == old(s)@ + spec_dec_chars(n as int),
    decreases n,
{
    if n >= 10 {
        push_dec_u64(s, n / 10);
        push_char(s, digit_char((n % 10) as u8));
        proof {
            assert(final(s)@ =~= old(s)@ + spec_dec_chars(n as int));
        }
    } else {
        push_char(s, digit_char(n as u8));
        proof {
            assert(final(s)@ =~= old(s)@ + spec_dec_chars(n as int));
        }
    }
}

/// Whether the pattern stands at the given position of the text.
pub fn match_at(s: &str, start: usize, pat: &str) -> (r: bool)
    requires
        start <= s@.len(),
    ensures
        r <==> (start + pat@.len() <= s@.len() && s@.subrange(
            start as int,
            start as int + pat@.len() as int,
        ) == pat@),
{
    let pl = pat.unicode_len();
    let n = s.unicode_len();
    if n - start < pl {
        return false;
    }
    let mut i: usize = 0;
    while i < pl
        invariant
            0 <= i <= pl,
            pl == pat@.len(),
            n == s@.len(),
            start + pl <= n,
            forall|j: int| 0 <= j < i ==> s@[start + j] == pat@[j],
        decreases pl - i,
    {
        if s.get_char(start + i) != pat.get_char(i) {
            proof {
                assert(s@.subrange(start as int, start as int + pat@.len() as int)[i as int]
                    != pat@[i as int]);
            }
            return false;
        }
        i = i + 1;
    }
    proof {
        assert(s@.subrange(start as int, start as int + pat@.len() as int) =~= pat@);
    }
    true
}

/// Whether the pattern occurs anywhere in the text.
pub open spec fn spec_contains(s: Seq<char>, pat: Seq<char>) -> bool {
    exists|i: int|
        0 <= i && i + pat.len() <= s.len() && #[trigger] s.subrange(i, i + pat.len() as int)
            == pat
}

/// Searches the text for the pattern.
pub fn str_contains(s: &str, pat: &str) -> (r: bool)
    ensures
        r == spec_contains(s@, pat@),
{
    let pl = pat.unicode_len();
    let n = s.unicode_len();
    if pl > n {
        return false;
    }
    if pl == 0 {
        proof {
            assert(s@.subrange(0, 0 + pat@.len() as int) =~= pat@);
        }
        return true;
    }
    let mut i: usize = 0;
    while i <= n - pl
        invariant
            0 <= i <= n - pl + 1,
            1 <= pl,
            pl == pat@.len(),
            n == s@.len(),
            pl <= n,
            forall|k: int|
                0 <= k < i ==> #[trigger] s@.subrange(k, k + pat@.len() as int) != pat@,
        decreases n - i,
    {
        if match_at(s, i, pat) {
            return true;
        }
        i = i + 1;
    }
    false
}

} // verus!
