use roman_numerals::to_roman::convert_to_roman;
use roman_numerals::to_roman::validate_arabic_input;

#[test]
fn test_validate_arabic_string() {
    assert_eq!(Ok(32), validate_arabic_input("32"));
}

#[test]
fn test_validate_string_with_letters() {
    assert_eq!(
        Err(String::from("`3n` is not a number")),
        validate_arabic_input("3n")
    );
}

#[test]
fn test_validate_in_range_limits() {
    assert_eq!(Ok(1), validate_arabic_input("1"));
    assert_eq!(Ok(3999), validate_arabic_input("3999"));
}

#[test]
fn test_validate_out_of_range_values() {
    assert_eq!(
        Err(String::from(
            "Arabic number is not in range for a Roman numeral 1-3999"
        )),
        validate_arabic_input("0")
    );
    assert_eq!(
        Err(String::from(
            "Arabic number is not in range for a Roman numeral 1-3999"
        )),
        validate_arabic_input("4000")
    );
}

#[test]
fn test_converting_to_roman() {
    assert_eq!(Ok("MCMXII".to_string()), convert_to_roman(1912));
    assert_eq!(Ok("MMXXI".to_string()), convert_to_roman(2021));
    assert_eq!(Ok("DCCLXXXIX".to_string()), convert_to_roman(789));
    assert_eq!(Ok("MDCCLXXVI".to_string()), convert_to_roman(1776));
    assert_eq!(Ok("MCMXVIII".to_string()), convert_to_roman(1918));
    assert_eq!(Ok("MCMXLIV".to_string()), convert_to_roman(1944))
}

#[test]
fn test_converting_with_invalid_input() {
    assert_eq!(
        Err(String::from(
            "Arabic number is not in range for a Roman numeral 1-3999",
        )),
        convert_to_roman(0),
    );
    assert_eq!(
        Err(String::from(
            "Arabic number is not in range for a Roman numeral 1-3999",
        )),
        convert_to_roman(4000),
    );
}

#[test]
fn test_validate_accepts_leading_plus_and_zeros() {
    assert_eq!(Ok(32), validate_arabic_input("+32"));
    assert_eq!(Ok(7), validate_arabic_input("007"));
}

#[test]
fn test_validate_rejects_empty_and_sign_only() {
    assert_eq!(
        Err(String::from("`` is not a number")),
        validate_arabic_input("")
    );
    assert_eq!(
        Err(String::from("`+` is not a number")),
        validate_arabic_input("+")
    );
    assert_eq!(
        Err(String::from("`-3` is not a number")),
        validate_arabic_input("-3")
    );
}

#[test]
fn test_validate_huge_number_is_not_a_number() {
    // too large even for the machine word, as the original parser saw it
    assert_eq!(
        Err(String::from(
            "`99999999999999999999999999` is not a number"
        )),
        validate_arabic_input("99999999999999999999999999")
    );
}

#[test]
fn test_converting_boundaries() {
    assert_eq!(Ok("I".to_string()), convert_to_roman(1));
    assert_eq!(Ok("MMMCMXCIX".to_string()), convert_to_roman(3999));
}
