//! Mathematical model of Roman numerals: the symbol set, the value of a
//! symbol sequence under subtractive notation, and the canonical rendering
//! of an integer in 1..=3999.

use vstd::prelude::*;

verus! {

/// The seven Roman numeral symbols.
pub open spec fn is_roman_char(c: char) -> bool {
    c == 'I' || c == 'V' || c == 'X' || c == 'L' || c == 'C' || c == 'D' || c == 'M'
}

/// The Arabic value of a single Roman symbol; 0 for any other character.
pub open spec fn roman_char_value(c: char) -> int {
    if c == 'I' {
        1
    } else if c == 'V' {
        5
    } else if c == 'X' {
        10
    } else if c == 'L' {
        50
    } else if c == 'C' {
        100
    } else if c == 'D' {
        500
    } else if c == 'M' {
        1000
    } else {
        0
    }
}

pub open spec fn all_roman(s: Seq<char>) -> bool {
    forall|i: int| 0 <= i < s.len() ==> is_roman_char(#[trigger] s[i])
}

/// The signed contribution of position `i`: a symbol strictly smaller than
/// its right neighbour is subtracted, any other symbol is added.
pub open spec fn roman_contribution(s: Seq<char>, i: int) -> int {
    if i + 1 < s.len() && roman_char_value(s[i]) < roman_char_value(s[i + 1]) {
        -roman_char_value(s[i])
    } else {
        roman_char_value(s[i])
    }
}

/// Value of the suffix of `s` that starts at position `i`.
pub open spec fn roman_value_from(s: Seq<char>, i: int) -> int
    decreases s.len() - i,
{
    if 0 <= i < s.len() {
        roman_contribution(s, i) + roman_value_from(s, i + 1)
    } else {
        0
    }
}

/// Value of a whole symbol sequence under subtractive notation.
pub open spec fn roman_value(s: Seq<char>) -> int {
    roman_value_from(s, 0)
}

/// Every running total of the right-to-left accumulation (that is, the value
/// of every suffix) stays within `i16`.
pub open spec fn suffix_values_fit(s: Seq<char>) -> bool {
    forall|i: int| 0 <= i <= s.len() ==> i16::MIN <= #[trigger] roman_value_from(s, i) <= i16::MAX
}

/// Roman rendering of the thousands digit (at most 3 for inputs <= 3999).
pub open spec fn thousands_part(d: int) -> Seq<char> {
    if d == 1 {
        "M"@
    } else if d == 2 {
        "MM"@
    } else if d == 3 {
        "MMM"@
    } else {
        Seq::<char>::empty()
    }
}

/// Roman rendering of the hundreds digit.
pub open spec fn hundreds_part(d: int) -> Seq<char> {
    if d == 1 {
        "C"@
    } else if d == 2 {
        "CC"@
    } else if d == 3 {
        "CCC"@
    } else if d == 4 {
        "CD"@
    } else if d == 5 {
        "D"@
    } else if d == 6 {
        "DC"@
    } else if d == 7 {
        "DCC"@
    } else if d == 8 {
        "DCCC"@
    } else if d == 9 {
        "CM"@
    } else {
        Seq::<char>::empty()
    }
}

/// Roman rendering of the tens digit.
pub open spec fn tens_part(d: int) -> Seq<char> {
    if d == 1 {
        "X"@
    } else if d == 2 {
        "XX"@
    } else if d == 3 {
        "XXX"@
    } else if d == 4 {
        "XL"@
    } else if d == 5 {
        "L"@
    } else if d == 6 {
        "LX"@
    } else if d == 7 {
        "LXX"@
    } else if d == 8 {
        "LXXX"@
    } else if d == 9 {
        "XC"@
    } else {
        Seq::<char>::empty()
    }
}

/// Roman rendering of the units digit.
pub open spec fn units_part(d: int) -> Seq<char> {
    if d == 1 {
        "I"@
    } else if d == 2 {
        "II"@
    } else if d == 3 {
        "III"@
    } else if d == 4 {
        "IV"@
    } else if d == 5 {
        "V"@
    } else if d == 6 {
        "VI"@
    } else if d == 7 {
        "VII"@
    } else if d == 8 {
        "VIII"@
    } else if d == 9 {
        "IX"@
    } else {
        Seq::<char>::empty()
    }
}

/// The canonical Roman numeral for `n`, digit by decimal digit.
pub open spec fn roman_of(n: int) -> Seq<char> {
    thousands_part(n / 1000) + hundreds_part((n / 100) % 10) + tens_part((n / 10) % 10)
        + units_part(n % 10)
}

/// A single symbol is worth at most 1000, so the value of a suffix is
/// bounded by 1000 per character.
pub proof fn lemma_value_bound(s: Seq<char>, i: int)
    requires
        0 <= i <= s.len(),
    ensures
        -1000 * (s.len() - i) <= roman_value_from(s, i) <= 1000 * (s.len() - i),
    decreases s.len() - i,
{
    if i < s.len() {
        lemma_value_bound(s, i + 1);
    }
}

/// Inside `s + t`, the suffix that starts where `t` begins reads exactly
/// as `t` does.
proof fn lemma_value_shift(s: Seq<char>, t: Seq<char>, j: int)
    requires
        0 <= j <= t.len(),
    ensures
        roman_value_from(s + t, s.len() + j) == roman_value_from(t, j),
    decreases t.len() - j,
{
    if j < t.len() {
        assert((s + t)[s.len() + j] == t[j]);
        if j + 1 < t.len() {
            assert((s + t)[s.len() + j + 1] == t[j + 1]);
        }
        lemma_value_shift(s, t, j + 1);
    }
}

proof fn lemma_value_concat_from(s: Seq<char>, t: Seq<char>, b: int, i: int)
    requires
        0 <= i <= s.len(),
        forall|k: int| 0 <= k < s.len() ==> roman_char_value(#[trigger] s[k]) >= b,
        t.len() > 0 ==> roman_char_value(t[0]) <= b,
    ensures
        roman_value_from(s + t, i) == roman_value_from(s, i) + roman_value(t),
    decreases s.len() - i,
{
    if i < s.len() {
        assert((s + t)[i] == s[i]);
        if i + 1 < s.len() {
            assert((s + t)[i + 1] == s[i + 1]);
        } else if t.len() > 0 {
            assert((s + t)[i + 1] == t[0]);
        }
        lemma_value_concat_from(s, t, b, i + 1);
    } else {
        lemma_value_shift(s, t, 0);
    }
}

/// When every symbol of `s` is at least as large as the first symbol of
/// `t`, no subtraction crosses the boundary, so the values add.
pub proof fn lemma_value_concat(s: Seq<char>, t: Seq<char>, b: int)
    requires
        forall|k: int| 0 <= k < s.len() ==> roman_char_value(#[trigger] s[k]) >= b,
        t.len() > 0 ==> roman_char_value(t[0]) <= b,
    ensures
        roman_value(s + t) == roman_value(s) + roman_value(t),
{
    lemma_value_concat_from(s, t, b, 0);
}

/// The thousands table renders digit `d` with value `1000 * d`, using only
/// the symbol M.
pub proof fn lemma_thousands_part(d: int)
    requires
        0 <= d <= 3,
    ensures
        roman_value(thousands_part(d)) == 1000 * d,
        forall|k: int|
            0 <= k < thousands_part(d).len() ==> is_roman_char(#[trigger] thousands_part(d)[k])
                && roman_char_value(thousands_part(d)[k]) >= 1000,
        thousands_part(d).len() <= 3,
{
    reveal_with_fuel(roman_value_from, 5);
    reveal_strlit("M");
    reveal_strlit("MM");
    reveal_strlit("MMM");
}

/// The hundreds table renders digit `d` with value `100 * d`, using
/// symbols no smaller than C whose first is at most D.
pub proof fn lemma_hundreds_part(d: int)
    requires
        0 <= d <= 9,
    ensures
        roman_value(hundreds_part(d)) == 100 * d,
        forall|k: int|
            0 <= k < hundreds_part(d).len() ==> is_roman_char(#[trigger] hundreds_part(d)[k])
                && roman_char_value(hundreds_part(d)[k]) >= 100,
        hundreds_part(d).len() > 0 ==> roman_char_value(hundreds_part(d)[0]) <= 500,
        hundreds_part(d).len() <= 4,
{
    reveal_with_fuel(roman_value_from, 6);
    reveal_strlit("C");
    reveal_strlit("CC");
    reveal_strlit("CCC");
    reveal_strlit("CD");
    reveal_strlit("D");
    reveal_strlit("DC");
    reveal_strlit("DCC");
    reveal_strlit("DCCC");
    reveal_strlit("CM");
}

/// The tens table renders digit `d` with value `10 * d`, using symbols no
/// smaller than X whose first is at most L.
pub proof fn lemma_tens_part(d: int)
    requires
        0 <= d <= 9,
    ensures
        roman_value(tens_part(d)) == 10 * d,
        forall|k: int|
            0 <= k < tens_part(d).len() ==> is_roman_char(#[trigger] tens_part(d)[k])
                && roman_char_value(tens_part(d)[k]) >= 10,
        tens_part(d).len() > 0 ==> roman_char_value(tens_part(d)[0]) <= 50,
        tens_part(d).len() <= 4,
{
    reveal_with_fuel(roman_value_from, 6);
    reveal_strlit("X");
    reveal_strlit("XX");
    reveal_strlit("XXX");
    reveal_strlit("XL");
    reveal_strlit("L");
    reveal_strlit("LX");
    reveal_strlit("LXX");
    reveal_strlit("LXXX");
    reveal_strlit("XC");
}

/// The units table renders digit `d` with value `d`, using symbols no
/// smaller than I whose first is at most V.
pub proof fn lemma_units_part(d: int)
    requires
        0 <= d <= 9,
    ensures
        roman_value(units_part(d)) == d,
        forall|k: int|
            0 <= k < units_part(d).len() ==> is_roman_char(#[trigger] units_part(d)[k])
                && roman_char_value(units_part(d)[k]) >= 1,
        units_part(d).len() > 0 ==> roman_char_value(units_part(d)[0]) <= 5,
        units_part(d).len() <= 4,
{
    reveal_with_fuel(roman_value_from, 6);
    reveal_strlit("I");
    reveal_strlit("II");
    reveal_strlit("III");
    reveal_strlit("IV");
    reveal_strlit("V");
    reveal_strlit("VI");
    reveal_strlit("VII");
    reveal_strlit("VIII");
    reveal_strlit("IX");
}

/// Round trip: reading the canonical Roman numeral of `n` back under
/// subtractive notation returns `n`. The numeral consists of Roman symbols
/// only, has at most 15 characters, and every running total of the
/// right-to-left reading fits `i16`.
pub proof fn lemma_roman_round_trip(n: int)
    requires
        1 <= n <= 3999,
    ensures
        roman_value(roman_of(n)) == n,
        all_roman(roman_of(n)),
        roman_of(n).len() <= 15,
        suffix_values_fit(roman_of(n)),
{
    let th = n / 1000;
    let hu = (n / 100) % 10;
    let te = (n / 10) % 10;
    let un = n % 10;
    assert(0 <= th <= 3);
    assert(0 <= hu <= 9);
    assert(0 <= te <= 9);
    assert(0 <= un <= 9);
    assert(n % 10 == n - 10 * (n / 10));
    assert((n / 10) % 10 == n / 10 - 10 * (n / 100));
    assert((n / 100) % 10 == n / 100 - 10 * (n / 1000));
    assert(n == 1000 * th + 100 * hu + 10 * te + un);
    lemma_thousands_part(th);
    lemma_hundreds_part(hu);
    lemma_tens_part(te);
    lemma_units_part(un);
    let t_seq = thousands_part(th);
    let h_seq = hundreds_part(hu);
    let x_seq = tens_part(te);
    let u_seq = units_part(un);
    lemma_value_concat(t_seq, h_seq, 500);
    assert(forall|k: int|
        0 <= k < (t_seq + h_seq).len() ==> roman_char_value(#[trigger] (t_seq + h_seq)[k]) >= 50);
    lemma_value_concat(t_seq + h_seq, x_seq, 50);
    assert(forall|k: int|
        0 <= k < (t_seq + h_seq + x_seq).len() ==> roman_char_value(
            #[trigger] (t_seq + h_seq + x_seq)[k],
        ) >= 5);
    lemma_value_concat(t_seq + h_seq + x_seq, u_seq, 5);
    assert(roman_value(roman_of(n)) == 1000 * th + 100 * hu + 10 * te + un);
    assert(all_roman(roman_of(n)));
    assert forall|i: int| 0 <= i <= roman_of(n).len() implies i16::MIN <= #[trigger] roman_value_from(
        roman_of(n),
        i,
    ) <= i16::MAX by {
        lemma_value_bound(roman_of(n), i);
    }
}

} // verus!
