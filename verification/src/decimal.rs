//! Decimal numerals: how a number is written in the generated text, and how
//! the text of an index operand is read back as a number.

use vstd::prelude::*;

verus! {

/// The character that writes the digit `d`, for `0 <= d <= 9`.
pub open spec fn digit_char(d: int) -> char {
    (d + 48) as char
}

/// Whether `c` is one of the ten decimal digits.
pub open spec fn is_digit(c: char) -> bool {
    48 <= c as int <= 57
}

/// The value of the digit `c`.
pub open spec fn digit_value(c: char) -> int {
    c as int - 48
}

/// The decimal numeral of `n`: no sign, no leading zero but for zero itself.
pub open spec fn decimal(n: nat) -> Seq<char>
    decreases n,
{
    if n < 10 {
        seq![digit_char(n as int)]
    } else {
        decimal(n / 10).push(digit_char((n % 10) as int))
    }
}

/// Whether every character of `s` is a decimal digit.
pub open spec fn all_digits(s: Seq<char>) -> bool {
    forall|i: int| 0 <= i < s.len() ==> is_digit(#[trigger] s[i])
}

/// The number that the digits of `s` write, most significant digit first.
pub open spec fn digits_value(s: Seq<char>) -> nat
    decreases s.len(),
{
    if s.len() == 0 {
        0
    } else {
        (digits_value(s.drop_last()) * 10 + digit_value(s.last())) as nat
    }
}

/// The digits of a numeral: the text itself, without a leading plus sign.
pub open spec fn numeral_digits(s: Seq<char>) -> Seq<char> {
    if s.len() > 0 && s[0] == '+' {
        s.skip(1)
    } else {
        s
    }
}

/// The number that `s` denotes: an optional plus sign followed by one or
/// more decimal digits and nothing else. `None` for any other text.
pub open spec fn numeral_value(s: Seq<char>) -> Option<nat> {
    let digits = numeral_digits(s);
    if digits.len() > 0 && all_digits(digits) {
        Some(digits_value(digits))
    } else {
        None
    }
}

/// The 16-bit number that `s` denotes, if it denotes one that fits.
pub open spec fn numeral_u16(s: Seq<char>) -> Option<u16> {
    match numeral_value(s) {
        Some(v) => if v <= u16::MAX {
            Some(v as u16)
        } else {
            None
        },
        None => None,
    }
}

/// Every numeral that `decimal` writes consists of digits, and reading the
/// digits back gives the number.
pub proof fn lemma_decimal_digits(n: nat)
    ensures
        decimal(n).len() > 0,
        all_digits(decimal(n)),
        digits_value(decimal(n)) == n,
        decimal(n)[0] != '+',
    decreases n,
{
    if n < 10 {
        assert(digits_value(decimal(n).drop_last()) == 0);
    } else {
        lemma_decimal_digits(n / 10);
        assert(decimal(n).drop_last() =~= decimal(n / 10));
    }
}

/// Writing a number and reading the text back gives the number.
pub proof fn lemma_numeral_of_decimal(n: nat)
    ensures
        numeral_value(decimal(n)) == Some(n),
{
    lemma_decimal_digits(n);
}

/// Different numbers have different numerals.
pub proof fn lemma_decimal_injective(a: nat, b: nat)
    requires
        decimal(a) == decimal(b),
    ensures
        a == b,
{
    lemma_decimal_digits(a);
    lemma_decimal_digits(b);
}

/// The value of a digit string is at least the value of each of its prefixes.
pub proof fn lemma_digits_value_prefix(s: Seq<char>, k: int)
    requires
        all_digits(s),
        0 <= k <= s.len(),
    ensures
        digits_value(s.take(k)) <= digits_value(s),
    decreases s.len() - k,
{
    if k == s.len() {
        assert(s.take(k) =~= s);
    } else {
        lemma_digits_value_prefix(s, k + 1);
        assert(s.take(k + 1).drop_last() =~= s.take(k));
    }
}

/// The one-character text of the digit `d`.
fn digit_text(d: u8) -> (text: &'static str)
    requires
        d < 10,
    ensures
        text@ == seq![digit_char(d as int)],
{
    proof {
        reveal_strlit("0");
        reveal_strlit("1");
        reveal_strlit("2");
        reveal_strlit("3");
        reveal_strlit("4");
        reveal_strlit("5");
        reveal_strlit("6");
        reveal_strlit("7");
        reveal_strlit("8");
        reveal_strlit("9");
    }
    match d {
        0 => "0",
        1 => "1",
        2 => "2",
        3 => "3",
        4 => "4",
        5 => "5",
        6 => "6",
        7 => "7",
        8 => "8",
        _ => "9",
    }
}

/// Writes `n` as a decimal numeral.
pub fn decimal_string(n: u128) -> (text: String)
    ensures
        text@ == decimal(n as nat),
    decreases n,
{
    if n < 10 {
        String::from_str(digit_text(n as u8))
    } else {
        let mut text = decimal_string(n / 10);
        text.append(digit_text((n % 10) as u8));
        text
    }
}

/// The value of `c` where it is a decimal digit.
pub fn digit_of(c: char) -> (value: Option<u8>)
    ensures
        value == (if is_digit(c) {
            Some(digit_value(c) as u8)
        } else {
            None
        }),
{
    if '0' <= c && c <= '9' {
        Some((c as u32 - 48) as u8)
    } else {
        None
    }
}

/// Reads `text` as a 16-bit number: an optional plus sign, then decimal
/// digits. Returns `None` where `text` is no such numeral or the number does
/// not fit in 16 bits.
pub fn parse_u16(text: &str) -> (value: Option<u16>)
    ensures
        value == numeral_u16(text@),
{
    let mut acc: u32 = 0;
    let mut first = true;
    let mut any = false;
    let ghost digits = numeral_digits(text@);
    let ghost offset = text@.len() - digits.len();
    for c in it: text.chars()
        invariant
            it.seq() == text@,
            digits == numeral_digits(text@),
            offset == text@.len() - digits.len(),
            first == (it.index() == 0),
            acc <= u16::MAX,
            first ==> acc == 0 && !any,
            !first ==> {
                let seen = it.index() - offset;
                &&& 0 <= seen <= digits.len()
                &&& any == (seen > 0)
                &&& all_digits(digits.take(seen))
                &&& acc == digits_value(digits.take(seen))
            },
    {
        if first && c == '+' {
            first = false;
        } else {
            let ghost seen = it.index() - offset;
            match digit_of(c) {
                Some(d) => {
                    assert(digits.take(seen + 1).drop_last() =~= digits.take(seen));
                    let next: u32 = acc * 10 + d as u32;
                    if next > 0xffff {
                        proof {
                            if all_digits(digits) {
                                lemma_digits_value_prefix(digits, seen + 1);
                            }
                        }
                        return None;
                    }
                    acc = next;
                    first = false;
                    any = true;
                },
                None => {
                    assert(digits[seen] == c);
                    return None;
                },
            }
        }
    }
    if !any {
        return None;
    }
    assert(digits.take(digits.len() as int) =~= digits);
    Some(acc as u16)
}

} // verus!
