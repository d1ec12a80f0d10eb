//! Numbers in text: reading decimal integers as `str::parse` reads them, and
//! writing them in decimal and in hexadecimal.

use vstd::prelude::*;

verus! {

/// An ASCII decimal digit.
pub open spec fn is_digit(c: char) -> bool {
    '0' <= c <= '9'
}

/// The value of a decimal digit.
pub open spec fn digit_of(c: char) -> int {
    c as int - '0' as int
}

/// Every character of `s` is a decimal digit.
pub open spec fn all_digits(s: Seq<char>) -> bool {
    forall|i: int| 0 <= i < s.len() ==> is_digit(#[trigger] s[i])
}

/// The number that the digits `s` write in base ten.
pub open spec fn digits_value(s: Seq<char>) -> nat
    decreases s.len(),
{
    if s.len() == 0 {
        0
    } else {
        (digits_value(s.drop_last()) * 10 + digit_of(s.last())) as nat
    }
}

/// What `str::parse` reads from `s` for an unsigned type with greatest value
/// `max`: an optional `+`, then one digit or more, whose value is at most `max`.
pub open spec fn parse_unsigned(s: Seq<char>, max: int) -> Option<int> {
    let body = if s.len() > 0 && s[0] == '+' {
        s.skip(1)
    } else {
        s
    };
    if body.len() > 0 && all_digits(body) && digits_value(body) <= max {
        Some(digits_value(body) as int)
    } else {
        None
    }
}

/// What `str::parse` reads from `s` for a signed type with the range `min` to
/// `max`: an optional `+` or `-`, then one digit or more, whose signed value
/// lies in the range.
pub open spec fn parse_signed(s: Seq<char>, min: int, max: int) -> Option<int> {
    let negative = s.len() > 0 && s[0] == '-';
    let body = if s.len() > 0 && (s[0] == '+' || s[0] == '-') {
        s.skip(1)
    } else {
        s
    };
    let value = if negative {
        -digits_value(body)
    } else {
        digits_value(body) as int
    };
    if body.len() > 0 && all_digits(body) && min <= value <= max {
        Some(value)
    } else {
        None
    }
}

/// What `str::parse::<u64>` reads from `s`.
pub open spec fn parse_u64_spec(s: Seq<char>) -> Option<int> {
    parse_unsigned(s, u64::MAX as int)
}

/// What `str::parse::<i32>` reads from `s`.
pub open spec fn parse_i32_spec(s: Seq<char>) -> Option<int> {
    parse_signed(s, i32::MIN as int, i32::MAX as int)
}

/// A number written with more digits is no smaller than the number that a
/// prefix of them writes.
pub proof fn lemma_digits_value_prefix(s: Seq<char>, k: int)
    requires
        all_digits(s),
        0 <= k <= s.len(),
    ensures
        digits_value(s.take(k)) <= digits_value(s),
    decreases s.len() - k,
{
    if k == s.len() {
        assert(s.take(k) =~= s);
    } else {
        lemma_digits_value_prefix(s, k + 1);
        let t = s.take(k + 1);
        assert(t.drop_last() =~= s.take(k));
        assert(is_digit(s[k]));
        assert(t.last() == s[k]);
    }
}

/// The value of the digits `s`, where `s` is one digit or more and the value
/// is at most `limit`.
pub fn read_digits(s: &[char], limit: u64) -> (r: Option<u64>)
    ensures
        match r {
            Some(v) => s@.len() > 0 && all_digits(s@) && v == digits_value(s@) && v <= limit,
            None => !(s@.len() > 0 && all_digits(s@) && digits_value(s@) <= limit),
        },
{
    if s.len() == 0 {
        return None;
    }
    let mut acc: u64 = 0;
    let mut i: usize = 0;
    assert(s@.take(0) =~= Seq::<char>::empty());
    while i < s.len()
        invariant
            i <= s.len(),
            all_digits(s@.take(i as int)),
            acc == digits_value(s@.take(i as int)),
            acc <= limit,
        decreases s.len() - i,
    {
        let c: char = s[i];
        if !('0' <= c && c <= '9') {
            assert(!is_digit(s@[i as int]));
            return None;
        }
        let d: u64 = (c as u32 - '0' as u32) as u64;
        let ghost next = s@.take(i + 1);
        assert(next.drop_last() =~= s@.take(i as int));
        assert(next.last() == c);
        assert(digits_value(next) == acc * 10 + d);
        assert(all_digits(next)) by {
            assert forall|k: int| 0 <= k < next.len() implies is_digit(#[trigger] next[k]) by {
                if k < i {
                    assert(next[k] == s@.take(i as int)[k]);
                }
            }
        }
        if d > limit || acc > (limit - d) / 10 {
            proof {
                assert(digits_value(next) > limit);
                if all_digits(s@) {
                    lemma_digits_value_prefix(s@, i + 1);
                }
            }
            return None;
        }
        acc = acc * 10 + d;
        i += 1;
    }
    assert(s@.take(s.len() as int) =~= s@);
    Some(acc)
}

/// Reads `s` as `str::parse::<u64>` does.
pub fn parse_u64(s: &[char]) -> (r: Option<u64>)
    ensures
        match r {
            Some(v) => parse_u64_spec(s@) == Some(v as int),
            None => parse_u64_spec(s@) is None,
        },
{
    if s.len() > 0 && s[0] == '+' {
        let body: &[char] = &s[1..s.len()];
        assert(body@ =~= s@.skip(1));
        read_digits(body, u64::MAX)
    } else {
        read_digits(s, u64::MAX)
    }
}

/// Reads `s` as `str::parse::<i32>` does.
pub fn parse_i32(s: &[char]) -> (r: Option<i32>)
    ensures
        match r {
            Some(v) => parse_i32_spec(s@) == Some(v as int),
            None => parse_i32_spec(s@) is None,
        },
{
    if s.len() > 0 && s[0] == '-' {
        let body: &[char] = &s[1..s.len()];
        assert(body@ =~= s@.skip(1));
        match read_digits(body, 2147483648) {
            Some(v) => Some((0 - (v as i64)) as i32),
            None => None,
        }
    } else if s.len() > 0 && s[0] == '+' {
        let body: &[char] = &s[1..s.len()];
        assert(body@ =~= s@.skip(1));
        match read_digits(body, 2147483647) {
            Some(v) => Some(v as i32),
            None => None,
        }
    } else {
        match read_digits(s, 2147483647) {
            Some(v) => Some(v as i32),
            None => None,
        }
    }
}

/// The decimal digit for `d`, which is at most nine.
pub open spec fn digit_char(d: int) -> char {
    (d + '0' as int) as char
}

/// `n` in base ten, without leading zeros.
pub open spec fn decimal(n: nat) -> Seq<char>
    decreases n,
{
    if n < 10 {
        seq![digit_char(n as int)]
    } else {
        decimal(n / 10).push(digit_char((n % 10) as int))
    }
}

/// `n` in base ten, with a `-` in front where it is negative.
pub open spec fn decimal_int(n: int) -> Seq<char> {
    if n < 0 {
        seq!['-'] + decimal((-n) as nat)
    } else {
        decimal(n as nat)
    }
}

/// A number's decimal text is one digit or more, and writes that number.
pub proof fn lemma_decimal_digits(n: nat)
    ensures
        decimal(n).len() > 0,
        all_digits(decimal(n)),
        digits_value(decimal(n)) == n,
    decreases n,
{
    if n < 10 {
        let s = decimal(n);
        assert(s.drop_last() =~= Seq::<char>::empty());
        assert(digits_value(s.drop_last()) == 0);
    } else {
        lemma_decimal_digits(n / 10);
        let s = decimal(n);
        assert(s.drop_last() =~= decimal(n / 10));
        assert forall|k: int| 0 <= k < s.len() implies is_digit(#[trigger] s[k]) by {
            if k < s.len() - 1 {
                assert(s[k] == decimal(n / 10)[k]);
            }
        }
    }
}

/// Reading what was written gives the number back: a `u64` written in
/// decimal parses to itself.
pub proof fn lemma_parse_u64_of_decimal(n: nat)
    requires
        n <= u64::MAX,
    ensures
        parse_u64_spec(decimal(n)) == Some(n as int),
{
    lemma_decimal_digits(n);
    assert(is_digit(decimal(n)[0]));
}

/// Reading what was written gives the number back: an `i32` written in
/// decimal parses to itself.
pub proof fn lemma_parse_i32_of_decimal(n: int)
    requires
        i32::MIN <= n <= i32::MAX,
    ensures
        parse_i32_spec(decimal_int(n)) == Some(n),
{
    if n < 0 {
        let m = (-n) as nat;
        lemma_decimal_digits(m);
        assert(decimal_int(n).skip(1) =~= decimal(m));
    } else {
        lemma_decimal_digits(n as nat);
        assert(is_digit(decimal(n as nat)[0]));
    }
}

/// The character for a digit below ten.
fn digit_to_char(d: u8) -> (c: char)
    requires
        d < 10,
    ensures
        c == digit_char(d as int),
{
    (d + 48) as char
}

/// The characters of `v` in the opposite order.
fn reversed(v: &Vec<char>) -> (r: Vec<char>)
    ensures
        r@ == v@.reverse(),
{
    let mut r: Vec<char> = Vec::new();
    let mut i: usize = v.len();
    while i > 0
        invariant
            i <= v.len(),
            r@.len() == v.len() - i,
            forall|k: int| 0 <= k < r@.len() ==> r@[k] == v@[v.len() - 1 - k],
        decreases i,
    {
        i -= 1;
        r.push(v[i]);
    }
    assert(r@ =~= v@.reverse());
    r
}

/// `n` in base ten.
pub fn decimal_u64(n: u64) -> (r: Vec<char>)
    ensures
        r@ == decimal(n as nat),
{
    let mut low: Vec<char> = Vec::new();
    let mut m: u64 = n;
    assert(decimal(m as nat) + low@.reverse() =~= decimal(n as nat));
    while m >= 10
        invariant
            decimal(n as nat) == decimal(m as nat) + low@.reverse(),
        decreases m,
    {
        let d: u8 = (m % 10) as u8;
        let ghost before = low@;
        low.push(digit_to_char(d));
        assert(low@.reverse() =~= seq![digit_char(d as int)] + before.reverse());
        assert(decimal(m as nat) =~= decimal((m / 10) as nat) + seq![digit_char(d as int)]);
        m = m / 10;
    }
    let ghost before = low@;
    low.push(digit_to_char(m as u8));
    assert(low@.reverse() =~= seq![digit_char(m as int)] + before.reverse());
    reversed(&low)
}

/// `n` in base ten, with a `-` in front where it is negative.
pub fn decimal_i32(n: i32) -> (r: Vec<char>)
    ensures
        r@ == decimal_int(n as int),
{
    if n < 0 {
        let m: u64 = (0 - (n as i64)) as u64;
        let digits: Vec<char> = decimal_u64(m);
        let mut r: Vec<char> = Vec::new();
        r.push('-');
        let mut i: usize = 0;
        while i < digits.len()
            invariant
                i <= digits.len(),
                r@ == seq!['-'] + digits@.take(i as int),
            decreases digits.len() - i,
        {
            r.push(digits[i]);
            i += 1;
            assert(digits@.take(i as int) =~= digits@.take(i - 1).push(digits@[i - 1]));
        }
        assert(digits@.take(digits.len() as int) =~= digits@);
        r
    } else {
        decimal_u64(n as u64)
    }
}

/// The upper-case hexadecimal digit for `d`, which is at most fifteen.
pub open spec fn hex_char(d: int) -> char {
    if d < 10 {
        (d + '0' as int) as char
    } else {
        (d - 10 + 'A' as int) as char
    }
}

/// The last `width` hexadecimal digits of `n`, upper case, with leading
/// zeros: what `{:0width$X}` prints of a number that fits in them.
pub open spec fn hex_upper(n: nat, width: nat) -> Seq<char>
    decreases width,
{
    if width == 0 {
        Seq::empty()
    } else {
        hex_upper(n / 16, (width - 1) as nat).push(hex_char((n % 16) as int))
    }
}

/// The character for a hexadecimal digit.
fn hex_to_char(d: u8) -> (c: char)
    requires
        d < 16,
    ensures
        c == hex_char(d as int),
{
    if d < 10 {
        (d + 48) as char
    } else {
        (d + 55) as char
    }
}

/// `n` in sixteen upper-case hexadecimal digits.
pub fn hex16_upper(n: u64) -> (r: Vec<char>)
    ensures
        r@ == hex_upper(n as nat, 16),
{
    let mut low: Vec<char> = Vec::new();
    let mut m: u64 = n;
    let mut k: usize = 0;
    assert(hex_upper(m as nat, 16) + low@.reverse() =~= hex_upper(n as nat, 16));
    while k < 16
        invariant
            k <= 16,
            hex_upper(n as nat, 16) == hex_upper(m as nat, (16 - k) as nat) + low@.reverse(),
        decreases 16 - k,
    {
        let d: u8 = (m % 16) as u8;
        let ghost before = low@;
        low.push(hex_to_char(d));
        assert(low@.reverse() =~= seq![hex_char(d as int)] + before.reverse());
        assert(hex_upper(m as nat, (16 - k) as nat) =~= hex_upper(
            (m / 16) as nat,
            (16 - k - 1) as nat,
        ) + seq![hex_char(d as int)]);
        m = m / 16;
        k += 1;
    }
    assert(hex_upper(m as nat, 0) =~= Seq::<char>::empty());
    reversed(&low)
}

} // verus!
