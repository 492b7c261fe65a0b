//! Validation of Roman numeral strings and their conversion to Arabic
//! integers.
//!
//! Validation is a character-membership check after uppercasing, not a
//! grammar check: any string of the seven symbols passes, and the converter
//! reads it under subtractive notation. The converter mirrors a signed
//! 16-bit accumulator, so its precondition rules out exactly the inputs
//! whose running total would leave `i16`; `accumulator_fits` decides that
//! precondition for a caller.

use vstd::prelude::*;

use crate::numeral::all_roman;
use crate::numeral::is_roman_char;
use crate::numeral::roman_char_value;
use crate::numeral::roman_contribution;
use crate::numeral::roman_value;
use crate::numeral::roman_value_from;
use crate::numeral::suffix_values_fit;

verus! {

/// The Unicode uppercase mapping of a character sequence.
pub uninterp spec fn upper_of(s: Seq<char>) -> Seq<char>;

/// Relies on `str::to_uppercase`: the result is the Unicode uppercase
/// mapping of the input, a function of the characters alone; a string made
/// only of the seven Roman symbols, which are uppercase ASCII letters, is
/// returned unchanged.
#[verifier::external_body]
fn to_upper(s: &str) -> (r: String)
    ensures
        r@ == upper_of(s@),
        all_roman(s@) ==> r@ == s@,
{
    s.to_uppercase()
}

/// What successful validation hands back: the input itself when it is
/// already all Roman symbols (uppercasing then leaves it unchanged), and
/// its uppercase mapping otherwise.
pub open spec fn validated_roman(s: Seq<char>) -> Seq<char> {
    if all_roman(s) {
        s
    } else {
        upper_of(s)
    }
}

/// The error for a string with characters outside the Roman symbol set.
pub open spec fn invalid_roman_msg(s: Seq<char>) -> Seq<char> {
    "Input `"@ + s + "` contains invalid Roman characters. Should only contain C, D, I, L, M, V, X."@
}

/// The error for an unknown character met during conversion.
pub open spec fn unknown_char_msg(c: char) -> Seq<char> {
    "Unknown roman character `"@ + seq![c] + "`"@
}

/// Position of the first character of `s` at or after `i` that is not a
/// Roman symbol, or `s.len()` if there is none.
pub open spec fn first_non_roman_from(s: Seq<char>, i: int) -> int
    decreases s.len() - i,
{
    if 0 <= i < s.len() {
        if !is_roman_char(s[i]) {
            i
        } else {
            first_non_roman_from(s, i + 1)
        }
    } else {
        s.len() as int
    }
}

/// Position of the first non-Roman character of `s`, or `s.len()`.
pub open spec fn first_non_roman(s: Seq<char>) -> int {
    first_non_roman_from(s, 0)
}

/// Executable lookup of a symbol's value; 0 for any non-Roman character.
fn char_value(c: char) -> (v: u16)
    ensures
        v as int == roman_char_value(c),
{
    if c == 'I' {
        1
    } else if c == 'V' {
        5
    } else if c == 'X' {
        10
    } else if c == 'L' {
        50
    } else if c == 'C' {
        100
    } else if c == 'D' {
        500
    } else if c == 'M' {
        1000
    } else {
        0
    }
}

/// Executable membership test for the Roman symbol set.
fn is_roman(c: char) -> (r: bool)
    ensures
        r == is_roman_char(c),
{
    c == 'I' || c == 'V' || c == 'X' || c == 'L' || c == 'C' || c == 'D' || c == 'M'
}

/// Finds the first non-Roman character of `s`, returning `s.len()` when
/// every character is a Roman symbol.
fn scan_non_roman(s: &str) -> (r: usize)
    ensures
        r as int == first_non_roman(s@),
        r as int <= s@.len(),
        forall|j: int| 0 <= j < r as int ==> is_roman_char(#[trigger] s@[j]),
        (r as int) < s@.len() ==> !is_roman_char(s@[r as int]),
        (r as int == s@.len()) <==> all_roman(s@),
{
    let n = s.unicode_len();
    let mut i: usize = 0;
    while i < n
        invariant
            0 <= i <= n,
            n as int == s@.len(),
            forall|j: int| 0 <= j < i ==> is_roman_char(#[trigger] s@[j]),
            first_non_roman(s@) == first_non_roman_from(s@, i as int),
        decreases n - i,
    {
        if !is_roman(s.get_char(i)) {
            return i;
        }
        i += 1;
    }
    i
}

/// Uppercases the input and accepts it when every character is then one of
/// the seven Roman symbols `C D I L M V X`; any other character is
/// rejected with a message naming the original input and the allowed set.
pub fn validate_roman_input(s: &str) -> (r: Result<String, String>)
    ensures
        (r matches Ok(v)) <==> all_roman(validated_roman(s@)),
        r matches Ok(v) ==> v@ == validated_roman(s@),
        r matches Err(m) ==> m@ == invalid_roman_msg(s@),
{
    let roman = to_upper(s);
    let n = roman.as_str().unicode_len();
    let k = scan_non_roman(roman.as_str());
    if k == n {
        Ok(roman)
    } else {
        let mut m = String::from_str("Input `");
        m.append(s);
        m.append("` contains invalid Roman characters. Should only contain C, D, I, L, M, V, X.");
        Err(m)
    }
}

/// Validation is idempotent: a successfully validated string consists of
/// Roman symbols only, so validating it again accepts it and hands it back
/// unchanged.
pub proof fn lemma_validation_idempotent(s: Seq<char>)
    requires
        all_roman(validated_roman(s)),
    ensures
        validated_roman(validated_roman(s)) == validated_roman(s),
        all_roman(validated_roman(validated_roman(s))),
{
}

/// Reads a string of Roman symbols right to left, adding each symbol's
/// value, or subtracting it when the symbol just to its right is strictly
/// larger; a character outside the symbol set is rejected. The accumulator
/// is a signed 16-bit integer, and the precondition rules out exactly the
/// inputs whose running total would leave its range.
pub fn convert_to_arabic(input: String) -> (r: Result<i16, String>)
    requires
        all_roman(input@) ==> suffix_values_fit(input@),
    ensures
        all_roman(input@) ==> (r matches Ok(v) && v as int == roman_value(input@)),
        !all_roman(input@) ==> (r matches Err(m) && m@ == unknown_char_msg(
            input@[first_non_roman(input@)],
        )),
{
    let s = input.as_str();
    let n = s.unicode_len();
    let k = scan_non_roman(s);
    if k < n {
        let mut m = String::from_str("Unknown roman character `");
        let c = s.substring_char(k, k + 1);
        proof {
            assert(s@.subrange(k as int, k as int + 1) =~= seq![s@[k as int]]);
        }
        m.append(c);
        m.append("`");
        return Err(m);
    }
    let mut acc: i16 = 0;
    let mut last: u16 = 0;
    let mut i: usize = n;
    while i > 0
        invariant
            0 <= i <= n,
            s@ == input@,
            n as int == input@.len(),
            all_roman(input@),
            suffix_values_fit(input@),
            acc as int == roman_value_from(input@, i as int),
            last as int == if (i as int) < input@.len() {
                roman_char_value(input@[i as int])
            } else {
                0
            },
        decreases i,
    {
        i = i - 1;
        let v = char_value(s.get_char(i));
        proof {
            assert(roman_value_from(input@, i as int) == roman_contribution(input@, i as int)
                + roman_value_from(input@, i as int + 1));
            assert(i16::MIN <= roman_value_from(input@, i as int) <= i16::MAX);
        }
        if v < last {
            acc = acc - (v as i16);
        } else {
            acc = acc + (v as i16);
        }
        last = v;
    }
    Ok(acc)
}

/// Decides the precondition of `convert_to_arabic`: whether every running
/// total of the right-to-left accumulation stays within `i16` (vacuously
/// true when the string has a non-Roman character, since conversion then
/// rejects it before accumulating).
pub fn accumulator_fits(input: &str) -> (r: bool)
    ensures
        r == (all_roman(input@) ==> suffix_values_fit(input@)),
{
    let n = input.unicode_len();
    let k = scan_non_roman(input);
    if k < n {
        return true;
    }
    let mut acc: i16 = 0;
    let mut last: u16 = 0;
    let mut i: usize = n;
    while i > 0
        invariant
            0 <= i <= n,
            n as int == input@.len(),
            all_roman(input@),
            acc as int == roman_value_from(input@, i as int),
            last as int == if (i as int) < input@.len() {
                roman_char_value(input@[i as int])
            } else {
                0
            },
            forall|j: int| i as int <= j <= input@.len() ==> i16::MIN <= #[trigger] roman_value_from(
                input@,
                j,
            ) <= i16::MAX,
        decreases i,
    {
        i = i - 1;
        let v = char_value(input.get_char(i));
        proof {
            assert(roman_value_from(input@, i as int) == roman_contribution(input@, i as int)
                + roman_value_from(input@, i as int + 1));
        }
        let step = if v < last {
            acc.checked_sub(v as i16)
        } else {
            acc.checked_add(v as i16)
        };
        match step {
            Some(a) => {
                acc = a;
                last = v;
            },
            None => {
                proof {
                    assert(!(i16::MIN <= roman_value_from(input@, i as int) <= i16::MAX));
                    assert(!suffix_values_fit(input@));
                }
                return false;
            },
        }
    }
    true
}

} // verus!
