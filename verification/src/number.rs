//! Decimal and hexadecimal texts of numbers.
use vstd::prelude::*;

use crate::text;

verus! {

/// The value of a decimal digit.
pub open spec fn digit_value(c: char) -> nat {
    (c as int - '0' as int) as nat
}

/// The decimal digit of a value below ten.
pub open spec fn digit_char(d: int) -> char {
    ('0' as int + d) as char
}

/// The number that a row of decimal digits denotes.
pub open spec fn digits_value(digits: Seq<char>) -> nat
    decreases digits.len(),
{
    if digits.len() == 0 {
        0
    } else {
        digits_value(digits.drop_last()) * 10 + digit_value(digits.last())
    }
}

pub open spec fn all_digits(s: Seq<char>) -> bool {
    forall|i: int| 0 <= i < s.len() ==> text::ascii_digit(#[trigger] s[i])
}

/// The signed 64-bit number that `s` denotes: one or more decimal digits, after at most one sign.
pub open spec fn integer_value(s: Seq<char>) -> Option<int> {
    let signed = s.len() > 0 && (s[0] == '-' || s[0] == '+');
    let digits = if signed {
        s.skip(1)
    } else {
        s
    };
    let magnitude = digits_value(digits) as int;
    let value = if s.len() > 0 && s[0] == '-' {
        -magnitude
    } else {
        magnitude
    };
    if digits.len() > 0 && all_digits(digits) && i64::MIN <= value <= i64::MAX {
        Some(value)
    } else {
        None
    }
}

/// The decimal text of a natural number, without leading zeros.
pub open spec fn natural_text(n: nat) -> Seq<char>
    decreases n,
{
    if n < 10 {
        seq![digit_char(n as int)]
    } else {
        natural_text(n / 10).push(digit_char((n % 10) as int))
    }
}

/// The decimal text of an integer.
pub open spec fn integer_text(value: int) -> Seq<char> {
    if value < 0 {
        seq!['-'] + natural_text((-value) as nat)
    } else {
        natural_text(value as nat)
    }
}

/// The lower-case hexadecimal digit of a value below sixteen.
pub open spec fn hex_char(d: int) -> char {
    if d < 10 {
        ('0' as int + d) as char
    } else {
        ('a' as int + (d - 10)) as char
    }
}

/// Two lower-case hexadecimal digits for each byte.
pub open spec fn hex_text(bytes: Seq<u8>) -> Seq<char>
    decreases bytes.len(),
{
    if bytes.len() == 0 {
        Seq::empty()
    } else {
        hex_text(bytes.drop_last()).push(hex_char((bytes.last() / 16) as int)).push(
            hex_char((bytes.last() % 16) as int),
        )
    }
}

/// There are two digits for each byte.
pub proof fn lemma_hex_len(bytes: Seq<u8>)
    ensures
        hex_text(bytes).len() == 2 * bytes.len(),
    decreases bytes.len(),
{
    if bytes.len() > 0 {
        lemma_hex_len(bytes.drop_last());
    }
}

/// A row of digits denotes at least what any of its prefixes denotes.
proof fn lemma_prefix_value(digits: Seq<char>, k: int)
    requires
        0 <= k <= digits.len(),
    ensures
        digits_value(digits.take(k)) <= digits_value(digits),
    decreases digits.len() - k,
{
    if k == digits.len() {
        assert(digits.take(k) =~= digits);
    } else {
        lemma_prefix_value(digits, k + 1);
        assert(digits.take(k + 1).drop_last() =~= digits.take(k));
    }
}

/// A natural number's text consists of digits that denote the number.
proof fn lemma_natural_text(n: nat)
    ensures
        natural_text(n).len() > 0,
        all_digits(natural_text(n)),
        digits_value(natural_text(n)) == n,
    decreases n,
{
    if n < 10 {
        reveal_with_fuel(digits_value, 2);
        assert(natural_text(n).drop_last() =~= Seq::<char>::empty());
    } else {
        lemma_natural_text(n / 10);
        assert(natural_text(n).drop_last() =~= natural_text(n / 10));
    }
}

/// Reading an integer's text gives the integer back.
pub proof fn law_integer_text_is_read_back(value: i64)
    ensures
        integer_value(integer_text(value as int)) == Some(value as int),
{
    let t = integer_text(value as int);
    if value < 0 {
        lemma_natural_text((-value) as nat);
        assert(t.skip(1) =~= natural_text((-value) as nat));
    } else {
        lemma_natural_text(value as nat);
        assert(text::ascii_digit(t[0]));
    }
}

/// Reads a signed 64-bit number in decimal.
pub fn parse_integer(s: &str) -> (res: Option<i64>)
    ensures
        match res {
            Some(value) => integer_value(s@) == Some(value as int),
            None => integer_value(s@) is None,
        },
{
    let chars = text::chars_of(s);
    let negative: bool = chars.len() > 0 && chars[0] == '-';
    let signed: bool = chars.len() > 0 && (chars[0] == '-' || chars[0] == '+');
    let start: usize = if signed {
        1
    } else {
        0
    };
    if chars.len() == start {
        return None;
    }
    let ghost digits = chars@.skip(start as int);
    assert(start == 0 ==> digits =~= chars@);
    let limit: u64 = if negative {
        9_223_372_036_854_775_808
    } else {
        9_223_372_036_854_775_807
    };
    let mut magnitude: u64 = 0;
    for i in start..chars.len()
        invariant
            chars@ == s@,
            start <= i <= chars@.len(),
            digits == chars@.skip(start as int),
            digits == (if signed {
                s@.skip(1)
            } else {
                s@
            }),
            signed == (s@.len() > 0 && (s@[0] == '-' || s@[0] == '+')),
            negative == (s@.len() > 0 && s@[0] == '-'),
            limit == (if negative {
                9_223_372_036_854_775_808int
            } else {
                9_223_372_036_854_775_807int
            }),
            magnitude <= limit,
            magnitude == digits_value(digits.take(i - start)),
            forall|j: int| 0 <= j < i - start ==> text::ascii_digit(#[trigger] digits[j]),
    {
        let c: char = chars[i];
        assert(digits[i - start] == c);
        if !('0' <= c && c <= '9') {
            return None;
        }
        let d: u64 = (c as u64) - ('0' as u64);
        let next: u128 = (magnitude as u128) * 10 + (d as u128);
        proof {
            assert(digits.take(i - start + 1).drop_last() =~= digits.take(i - start));
            lemma_prefix_value(digits, i - start + 1);
        }
        if next > limit as u128 {
            return None;
        }
        magnitude = next as u64;
    }
    assert(digits.take(digits.len() as int) =~= digits);
    if negative {
        if magnitude == 9_223_372_036_854_775_808 {
            Some(i64::MIN)
        } else {
            Some(-(magnitude as i64))
        }
    } else {
        Some(magnitude as i64)
    }
}

/// The decimal digits of a natural number.
fn natural_digits(n: u64) -> (res: String)
    ensures
        res@ == natural_text(n as nat),
    decreases n,
{
    if n < 10 {
        let mut out = String::new();
        out.push((48u8 + (n as u8)) as char);
        assert(out@ =~= natural_text(n as nat));
        out
    } else {
        let mut out = natural_digits(n / 10);
        out.push((48u8 + ((n % 10) as u8)) as char);
        out
    }
}

/// Writes a signed 64-bit number in decimal.
pub fn integer_to_text(value: i64) -> (res: String)
    ensures
        res@ == integer_text(value as int),
{
    if value < 0 {
        let mut out = String::new();
        out.push('-');
        let magnitude: u64 = if value == i64::MIN {
            9_223_372_036_854_775_808
        } else {
            (-value) as u64
        };
        let digits = natural_digits(magnitude);
        out.append(digits.as_str());
        assert(out@ =~= integer_text(value as int));
        out
    } else {
        natural_digits(value as u64)
    }
}

fn hex_digit(d: u8) -> (res: char)
    requires
        d < 16,
    ensures
        res == hex_char(d as int),
{
    if d < 10 {
        (48u8 + d) as char
    } else {
        (97u8 + (d - 10)) as char
    }
}

/// Writes bytes in lower-case hexadecimal.
pub fn hex_encode(bytes: &[u8]) -> (res: String)
    ensures
        res@ == hex_text(bytes@),
{
    let mut out = String::new();
    for i in 0..bytes.len()
        invariant
            out@ == hex_text(bytes@.take(i as int)),
    {
        let b: u8 = bytes[i];
        assert(bytes@.take(i + 1).drop_last() =~= bytes@.take(i as int));
        out.push(hex_digit(b / 16));
        out.push(hex_digit(b % 16));
    }
    assert(bytes@.take(bytes@.len() as int) =~= bytes@);
    out
}

/// One in decimal.
pub proof fn lemma_one()
    ensures
        integer_text(1) == "1"@,
{
    reveal_strlit("1");
    reveal_with_fuel(natural_text, 2);
    assert(integer_text(1) =~= "1"@);
}

/// The decimal text of a number: below ten its digit; else the text of its tenth part and its last
/// digit; and a minus sign before it if it is negative.
pub proof fn law_decimal_text(n: nat, digit: int)
    requires
        0 <= digit <= 9,
    ensures
        integer_text(digit).len() == 1,
        integer_text(digit)[0] as int == 48 + digit,
        n > 0 ==> integer_text(10 * n + digit) == integer_text(n as int) + integer_text(digit),
        n > 0 ==> integer_text(-(n as int)) == seq!['-'] + integer_text(n as int),
{
    if n > 0 {
        let whole = (10 * n + digit) as nat;
        assert(whole / 10 == n);
        assert(whole % 10 == digit);
        assert(integer_text(10 * n + digit) =~= integer_text(n as int) + integer_text(digit));
    }
}

/// What a row of decimal digits denotes grows digit by digit.
pub proof fn law_digits_denote_a_number(digits: Seq<char>, c: char)
    requires
        text::ascii_digit(c),
        all_digits(digits),
    ensures
        integer_value(seq![c]) == Some(c as int - 48),
        integer_value(digits) matches Some(value) ==> integer_value(digits.push(c)) == (if value
            * 10 + (c as int - 48) <= i64::MAX {
            Some(value * 10 + (c as int - 48))
        } else {
            None
        }),
        digits.len() > 0 && integer_value(digits) is None ==> integer_value(digits.push(c)) is None,
{
    reveal_with_fuel(digits_value, 2);
    assert(seq![c].drop_last() =~= Seq::<char>::empty());
    assert(seq![c][0] == c);
    assert(digits.push(c).drop_last() =~= digits);
    let longer = digits.push(c);
    assert forall|i: int| 0 <= i < longer.len() implies text::ascii_digit(#[trigger] longer[i]) by {
        if i < digits.len() {
            assert(text::ascii_digit(digits[i]));
        }
    }
    if digits.len() > 0 {
        assert(text::ascii_digit(digits[0]));
        assert(longer[0] == digits[0]);
    }
}

/// A sign before digits changes the sign, and nothing else than digits behind at most one sign
/// denotes a number.
pub proof fn law_signs_and_digits(digits: Seq<char>, s: Seq<char>, i: int)
    ensures
        integer_value(Seq::empty()) is None,
        integer_value(seq!['+']) is None,
        integer_value(seq!['-']) is None,
        all_digits(digits) ==> integer_value(seq!['+'] + digits) == integer_value(digits),
        all_digits(digits) ==> (integer_value(digits) matches Some(value) ==> integer_value(
            seq!['-'] + digits,
        ) == Some(-value)),
        0 <= i < s.len() && !(48 <= s[i] as int <= 57) && !(i == 0 && (s[i] == '+' || s[i] == '-'))
            ==> integer_value(s) is None,
        integer_value(s) matches Some(value) ==> i64::MIN <= value <= i64::MAX,
{
    let plus = seq!['+'] + digits;
    let minus = seq!['-'] + digits;
    assert(plus.skip(1) =~= digits);
    assert(minus.skip(1) =~= digits);
    assert(plus[0] == '+');
    assert(minus[0] == '-');
    assert(seq!['+'].skip(1) =~= Seq::<char>::empty());
    assert(seq!['-'].skip(1) =~= Seq::<char>::empty());
    if all_digits(digits) && digits.len() > 0 {
        assert(text::ascii_digit(digits[0]));
    }
    if 0 <= i < s.len() && !(48 <= s[i] as int <= 57) && !(i == 0 && (s[i] == '+' || s[i]
        == '-')) {
        let signed = s[0] == '-' || s[0] == '+';
        if signed {
            assert(s.skip(1)[i - 1] == s[i]);
            assert(!text::ascii_digit(s.skip(1)[i - 1]));
        } else {
            assert(!text::ascii_digit(s[i]));
        }
    }
}

/// Each byte is written as two hexadecimal digits, the higher first.
pub proof fn law_hexadecimal_text(bytes: Seq<u8>, byte: u8, d: int)
    requires
        0 <= d <= 15,
    ensures
        hex_text(bytes.push(byte)) == hex_text(bytes).push(hex_char(byte as int / 16)).push(
            hex_char(byte as int % 16),
        ),
        hex_text(Seq::empty()) == Seq::<char>::empty(),
        d <= 9 ==> hex_char(d) as int == 48 + d,
        d >= 10 ==> hex_char(d) as int == 87 + d,
{
    assert(bytes.push(byte).drop_last() =~= bytes);
}

} // verus!
