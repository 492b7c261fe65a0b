//! Validation of Arabic integer strings and their conversion to Roman
//! numerals.
//!
//! The validator reads a decimal string (an optional leading plus sign and
//! then ASCII digits) and accepts values in 1..=3999; anything else is
//! rejected with the message the caller expects. The converter renders each
//! decimal digit with a positional lookup, thousands first.

use vstd::prelude::*;

use crate::numeral::hundreds_part;
use crate::numeral::roman_of;
use crate::numeral::tens_part;
use crate::numeral::thousands_part;
use crate::numeral::units_part;

verus! {

/// An ASCII decimal digit.
pub open spec fn is_decimal_digit(c: char) -> bool {
    c == '0' || c == '1' || c == '2' || c == '3' || c == '4' || c == '5' || c == '6' || c == '7'
        || c == '8' || c == '9'
}

/// The numeric value of an ASCII decimal digit; 0 for any other character.
pub open spec fn digit_value(c: char) -> int {
    if c == '1' {
        1
    } else if c == '2' {
        2
    } else if c == '3' {
        3
    } else if c == '4' {
        4
    } else if c == '5' {
        5
    } else if c == '6' {
        6
    } else if c == '7' {
        7
    } else if c == '8' {
        8
    } else if c == '9' {
        9
    } else {
        0
    }
}

pub open spec fn all_decimal_digits(s: Seq<char>) -> bool {
    forall|i: int| 0 <= i < s.len() ==> is_decimal_digit(#[trigger] s[i])
}

/// The value of a digit sequence read most significant first.
pub open spec fn digit_seq_value(s: Seq<char>) -> int
    decreases s.len(),
{
    if s.len() == 0 {
        0
    } else {
        digit_seq_value(s.drop_last()) * 10 + digit_value(s.last())
    }
}

/// The digits of a decimal string after the optional leading plus sign.
pub open spec fn decimal_digits(s: Seq<char>) -> Seq<char> {
    if s.len() > 0 && s[0] == '+' {
        s.skip(1)
    } else {
        s
    }
}

/// A string accepted as a decimal number: an optional leading plus sign
/// followed by at least one ASCII digit.
pub open spec fn is_decimal_string(s: Seq<char>) -> bool {
    decimal_digits(s).len() > 0 && all_decimal_digits(decimal_digits(s))
}

/// The numeric value of a decimal string.
pub open spec fn decimal_value(s: Seq<char>) -> int {
    digit_seq_value(decimal_digits(s))
}

/// The error for input that does not read as a decimal number.
pub open spec fn not_a_number_msg(s: Seq<char>) -> Seq<char> {
    "`"@ + s + "` is not a number"@
}

/// The error for a number outside the representable range.
pub open spec fn range_msg() -> Seq<char> {
    "Arabic number is not in range for a Roman numeral 1-3999"@
}

/// A digit sequence never has a negative value.
proof fn lemma_digit_seq_value_nonneg(s: Seq<char>)
    ensures
        digit_seq_value(s) >= 0,
    decreases s.len(),
{
    if s.len() > 0 {
        lemma_digit_seq_value_nonneg(s.drop_last());
    }
}

/// Executable classification of an ASCII decimal digit.
fn digit_of(c: char) -> (r: Option<usize>)
    ensures
        (r matches Some(d)) <==> is_decimal_digit(c),
        r matches Some(d) ==> d as int == digit_value(c),
{
    if c == '0' {
        Some(0)
    } else if c == '1' {
        Some(1)
    } else if c == '2' {
        Some(2)
    } else if c == '3' {
        Some(3)
    } else if c == '4' {
        Some(4)
    } else if c == '5' {
        Some(5)
    } else if c == '6' {
        Some(6)
    } else if c == '7' {
        Some(7)
    } else if c == '8' {
        Some(8)
    } else if c == '9' {
        Some(9)
    } else {
        None
    }
}

/// Builds the not-a-number error around the original input.
fn build_not_a_number(s: &str) -> (m: String)
    ensures
        m@ == not_a_number_msg(s@),
{
    let mut m = String::from_str("`");
    m.append(s);
    m.append("` is not a number");
    m
}

/// Parses the input as a decimal integer and accepts values in 1..=3999.
/// A string that is not an optional plus sign followed by digits, or whose
/// value does not even fit the machine's word, is "not a number"; a decimal
/// value outside 1..=3999 gets the range error.
pub fn validate_arabic_input(s: &str) -> (r: Result<u16, String>)
    ensures
        (r matches Ok(n)) <==> (is_decimal_string(s@) && 1 <= decimal_value(s@) <= 3999),
        r matches Ok(n) ==> n as int == decimal_value(s@),
        (!is_decimal_string(s@) || decimal_value(s@) > usize::MAX) ==> (r matches Err(m) && m@
            == not_a_number_msg(s@)),
        (is_decimal_string(s@) && decimal_value(s@) <= usize::MAX && !(1 <= decimal_value(s@)
            <= 3999)) ==> (r matches Err(m) && m@ == range_msg()),
{
    let n = s.unicode_len();
    let start: usize = if n > 0 && s.get_char(0) == '+' {
        1
    } else {
        0
    };
    if start == n {
        return Err(build_not_a_number(s));
    }
    let mut i: usize = start;
    let mut acc: usize = 0;
    let mut big = false;
    while i < n
        invariant
            start <= i <= n,
            n as int == s@.len(),
            start == 0 || start == 1,
            start == 1 ==> s@.len() > 0 && s@[0] == '+',
            start == 0 ==> !(s@.len() > 0 && s@[0] == '+'),
            forall|j: int| start as int <= j < i as int ==> is_decimal_digit(#[trigger] s@[j]),
            !big ==> acc as int == digit_seq_value(s@.subrange(start as int, i as int)),
            big ==> digit_seq_value(s@.subrange(start as int, i as int)) > usize::MAX,
        decreases n - i,
    {
        let c = s.get_char(i);
        match digit_of(c) {
            Some(d) => {
                proof {
                    let pre = s@.subrange(start as int, i as int);
                    let post = s@.subrange(start as int, i as int + 1);
                    assert(post.drop_last() =~= pre);
                    assert(post.last() == s@[i as int]);
                    lemma_digit_seq_value_nonneg(pre);
                }
                if !big {
                    match acc.checked_mul(10) {
                        Some(t) => {
                            match t.checked_add(d) {
                                Some(a) => {
                                    acc = a;
                                },
                                None => {
                                    big = true;
                                },
                            }
                        },
                        None => {
                            big = true;
                        },
                    }
                }
                i += 1;
            },
            None => {
                proof {
                    assert(decimal_digits(s@)[i as int - start as int] == s@[i as int]);
                    assert(!is_decimal_string(s@));
                }
                return Err(build_not_a_number(s));
            },
        }
    }
    proof {
        assert(s@.subrange(start as int, n as int) =~= decimal_digits(s@));
        assert(usize::MAX >= 3999);
    }
    if big {
        return Err(build_not_a_number(s));
    }
    if acc < 1 || acc > 3999 {
        return Err(String::from_str("Arabic number is not in range for a Roman numeral 1-3999"));
    }
    Ok(acc as u16)
}

/// Appends the Roman rendering of the thousands digit.
fn append_thousands(out: &mut String, d: u16)
    ensures
        final(out)@ == old(out)@ + thousands_part(d as int),
{
    if d == 1 {
        out.append("M");
    } else if d == 2 {
        out.append("MM");
    } else if d == 3 {
        out.append("MMM");
    } else {
        proof {
            assert(out@ + thousands_part(d as int) =~= out@);
        }
    }
}

/// Appends the Roman rendering of the hundreds digit.
fn append_hundreds(out: &mut String, d: u16)
    ensures
        final(out)@ == old(out)@ + hundreds_part(d as int),
{
    if d == 1 {
        out.append("C");
    } else if d == 2 {
        out.append("CC");
    } else if d == 3 {
        out.append("CCC");
    } else if d == 4 {
        out.append("CD");
    } else if d == 5 {
        out.append("D");
    } else if d == 6 {
        out.append("DC");
    } else if d == 7 {
        out.append("DCC");
    } else if d == 8 {
        out.append("DCCC");
    } else if d == 9 {
        out.append("CM");
    } else {
        proof {
            assert(out@ + hundreds_part(d as int) =~= out@);
        }
    }
}

/// Appends the Roman rendering of the tens digit.
fn append_tens(out: &mut String, d: u16)
    ensures
        final(out)@ == old(out)@ + tens_part(d as int),
{
    if d == 1 {
        out.append("X");
    } else if d == 2 {
        out.append("XX");
    } else if d == 3 {
        out.append("XXX");
    } else if d == 4 {
        out.append("XL");
    } else if d == 5 {
        out.append("L");
    } else if d == 6 {
        out.append("LX");
    } else if d == 7 {
        out.append("LXX");
    } else if d == 8 {
        out.append("LXXX");
    } else if d == 9 {
        out.append("XC");
    } else {
        proof {
            assert(out@ + tens_part(d as int) =~= out@);
        }
    }
}

/// Appends the Roman rendering of the units digit.
fn append_units(out: &mut String, d: u16)
    ensures
        final(out)@ == old(out)@ + units_part(d as int),
{
    if d == 1 {
        out.append("I");
    } else if d == 2 {
        out.append("II");
    } else if d == 3 {
        out.append("III");
    } else if d == 4 {
        out.append("IV");
    } else if d == 5 {
        out.append("V");
    } else if d == 6 {
        out.append("VI");
    } else if d == 7 {
        out.append("VII");
    } else if d == 8 {
        out.append("VIII");
    } else if d == 9 {
        out.append("IX");
    } else {
        proof {
            assert(out@ + units_part(d as int) =~= out@);
        }
    }
}

/// Renders an integer in 1..=3999 as its canonical Roman numeral, largest
/// positional value first; any other integer gets the range error.
pub fn convert_to_roman(input: u16) -> (r: Result<String, String>)
    ensures
        1 <= input <= 3999 ==> (r matches Ok(v) && v@ == roman_of(input as int)),
        !(1 <= input <= 3999) ==> (r matches Err(m) && m@ == range_msg()),
{
    if input < 1 || input > 3999 {
        return Err(String::from_str("Arabic number is not in range for a Roman numeral 1-3999"));
    }
    let mut out = String::new();
    let th = input / 1000;
    let hu = (input / 100) % 10;
    let te = (input / 10) % 10;
    let un = input % 10;
    append_thousands(&mut out, th);
    append_hundreds(&mut out, hu);
    append_tens(&mut out, te);
    append_units(&mut out, un);
    proof {
        assert(Seq::<char>::empty() + thousands_part(th as int) =~= thousands_part(th as int));
    }
    Ok(out)
}

} // verus!
