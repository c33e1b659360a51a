//! Identity and viewport baked into the host, and where it finds its bundle.

use vstd::prelude::*;

verus! {

/// Baked host identity and viewport.
#[derive(Clone, Copy, Debug, PartialEq, Eq, Structural)]
pub struct HostConfig {
    pub host_abi: u32,
    /// The logical viewport that the app declared, in its authored orientation.
    pub logical_w: u32,
    pub logical_h: u32,
    pub density: u32,
}

pub open spec fn is_digit(c: char) -> bool {
    '0' <= c && c <= '9'
}

/// The number that a string of decimal digits writes.
pub open spec fn digits_value(s: Seq<char>) -> nat
    decreases s.len(),
{
    if s.len() == 0 {
        0
    } else {
        digits_value(s.drop_last()) * 10 + (s.last() as nat - '0' as nat) as nat
    }
}

/// The digits of a number, without the plus sign that may stand in front.
pub open spec fn without_plus(s: Seq<char>) -> Seq<char> {
    if s.len() > 0 && s[0] == '+' {
        s.skip(1)
    } else {
        s
    }
}

/// The `u32` that a string writes in decimal: digits, at least one, with an
/// optional plus sign in front and nothing else around them.
pub open spec fn decimal_u32(s: Seq<char>) -> Option<u32> {
    let digits = without_plus(s);
    if digits.len() > 0 && (forall|i: int| 0 <= i < digits.len() ==> is_digit(#[trigger] digits[i]))
        && digits_value(digits) <= u32::MAX {
        Some(digits_value(digits) as u32)
    } else {
        None
    }
}

/// Reads a decimal `u32`; none where the string is not one.
pub fn parse_u32(value: &str) -> (parsed: Option<u32>)
    ensures
        parsed == decimal_u32(value@),
{
    let len: usize = value.unicode_len();
    let start: usize = if len > 0 && value.get_char(0) == '+' { 1 } else { 0 };
    let ghost digits = without_plus(value@);
    if start == len {
        return None;
    }
    let mut number: u32 = 0;
    let mut i: usize = start;
    while i < len
        invariant
            start <= i <= len,
            start < len,
            len == value@.len(),
            digits == without_plus(value@),
            digits == value@.skip(start as int),
            number == digits_value(digits.take(i - start)),
            forall|j: int| 0 <= j < i - start ==> is_digit(#[trigger] digits[j]),
        decreases len - i,
    {
        let c = value.get_char(i);
        assert(c == digits[i - start]);
        if !('0' <= c && c <= '9') {
            return None;
        }
        let digit: u32 = c as u32 - '0' as u32;
        proof {
            assert(digits.take(i - start + 1).drop_last() =~= digits.take(i - start));
            lemma_prefix_is_no_larger(digits, i - start + 1);
        }
        number = match number.checked_mul(10) {
            None => {
                return None;
            },
            Some(tens) => match tens.checked_add(digit) {
                None => {
                    return None;
                },
                Some(sum) => sum,
            },
        };
        i = i + 1;
    }
    assert(digits.take(i - start) =~= digits);
    Some(number)
}

/// A prefix of a number's digits writes no larger number.
proof fn lemma_prefix_is_no_larger(digits: Seq<char>, n: int)
    requires
        0 <= n <= digits.len(),
    ensures
        digits_value(digits.take(n)) <= digits_value(digits),
    decreases digits.len(),
{
    if n < digits.len() {
        lemma_prefix_is_no_larger(digits.drop_last(), n);
        assert(digits.drop_last().take(n) =~= digits.take(n));
    } else {
        assert(digits.take(n) =~= digits);
    }
}

/// Reads a number that was baked in as a string.
pub fn parse_baked(value: &str) -> (number: u32)
    requires
        decimal_u32(value@) is Some,
    ensures
        Some(number) == decimal_u32(value@),
{
    parse_u32(value).unwrap()
}

impl HostConfig {
    /// The configuration that the baked strings write.
    pub fn from_env(host_abi: &str, logical_w: &str, logical_h: &str, density: &str) -> (config:
        HostConfig)
        requires
            decimal_u32(host_abi@) is Some,
            decimal_u32(logical_w@) is Some,
            decimal_u32(logical_h@) is Some,
            decimal_u32(density@) is Some,
        ensures
            Some(config.host_abi) == decimal_u32(host_abi@),
            Some(config.logical_w) == decimal_u32(logical_w@),
            Some(config.logical_h) == decimal_u32(logical_h@),
            Some(config.density) == decimal_u32(density@),
    {
        HostConfig {
            host_abi: parse_baked(host_abi),
            logical_w: parse_baked(logical_w),
            logical_h: parse_baked(logical_h),
            density: parse_baked(density),
        }
    }
}

/// Where the app pak is: the configured path, or `app.pak`.
pub fn pak_path(configured: Option<String>) -> (path: String)
    ensures
        path@ == (match configured {
            Some(path) => path@,
            None => "app.pak"@,
        }),
{
    match configured {
        Some(path) => path,
        None => "app.pak".to_owned(),
    }
}

/// Where the app bundle is: the configured path, or `app.js`.
pub fn js_path(configured: Option<String>) -> (path: String)
    ensures
        path@ == (match configured {
            Some(path) => path@,
            None => "app.js"@,
        }),
{
    match configured {
        Some(path) => path,
        None => "app.js".to_owned(),
    }
}

/// Only digits behind an optional plus sign are read, and at least one digit is
/// needed.
pub proof fn law_only_decimal_digits_are_read(s: Seq<char>, i: int)
    requires
        decimal_u32(s) is Some,
        0 <= i < s.len(),
    ensures
        '0' <= s[i] <= '9' || (i == 0 && s[0] == '+' && s.len() > 1),
{
    let digits = without_plus(s);
    if s[0] == '+' {
        if i > 0 {
            assert(is_digit(digits[i - 1]));
        }
    } else {
        assert(is_digit(digits[i]));
    }
}

/// The empty string is not a number.
pub proof fn law_nothing_is_no_number(s: Seq<char>)
    requires
        decimal_u32(s) is Some,
    ensures
        s.len() > 0,
{
}

/// A plus sign in front of digits changes nothing.
pub proof fn law_a_plus_sign_changes_nothing(s: Seq<char>)
    requires
        s.len() > 0,
        s[0] != '+',
    ensures
        decimal_u32(seq!['+'] + s) == decimal_u32(s),
{
    assert((seq!['+'] + s).skip(1) =~= s);
}

/// A single digit reads as its value.
pub proof fn law_a_digit_is_its_value(c: char)
    requires
        '0' <= c <= '9',
    ensures
        decimal_u32(seq![c]) matches Some(n) && n == c as int - '0' as int,
{
    let s = seq![c];
    assert(s.drop_last() =~= Seq::<char>::empty());
    assert(digits_value(s.drop_last()) == 0);
    assert(s.last() == c);
}

/// A digit behind a number multiplies it by ten and adds to it, as long as the
/// result still fits; a number that is too large stays too large.
pub proof fn law_another_digit_multiplies_by_ten(s: Seq<char>, c: char)
    requires
        s.len() > 0,
        forall|i: int| 0 <= i < s.len() ==> '0' <= #[trigger] s[i] <= '9',
        '0' <= c <= '9',
    ensures
        match decimal_u32(s) {
            None => decimal_u32(s.push(c)) is None,
            Some(n) => if n * 10 + (c as int - '0' as int) <= u32::MAX {
                decimal_u32(s.push(c)) matches Some(m) && m == n * 10 + (c as int - '0' as int)
            } else {
                decimal_u32(s.push(c)) is None
            },
        },
{
    let t = s.push(c);
    assert(t.drop_last() =~= s);
    assert(t[0] == s[0]);
    assert(forall|i: int| 0 <= i < s.len() ==> is_digit(#[trigger] s[i]));
    assert forall|i: int| 0 <= i < t.len() implies is_digit(#[trigger] t[i]) by {
        if i < s.len() {
            assert(t[i] == s[i]);
        }
    }
}

} // verus!
