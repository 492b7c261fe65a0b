use roman_numerals::to_arabic::accumulator_fits;
use roman_numerals::to_arabic::convert_to_arabic;
use roman_numerals::to_arabic::validate_roman_input;

#[test]
fn test_validate_roman_string() {
    assert_eq!(Ok(String::from("MCDLXIV")), validate_roman_input("MCDLXIV"));
}

#[test]
fn test_validate_with_invalid_characters() {
    assert_eq!(
        Err(String::from(
            "Input `XIVT` contains invalid Roman characters. Should only contain C, D, I, L, M, V, X."
        )),
        validate_roman_input("XIVT")
    );
}

#[test]
fn test_validate_returns_uppercase_input() {
    assert_eq!(Ok(String::from("XIV")), validate_roman_input("xiv"));
}

#[test]
fn test_converting_to_arabic() {
    assert_eq!(Ok(1), convert_to_arabic("I".to_string()));
    assert_eq!(Ok(5), convert_to_arabic("V".to_string()));
    assert_eq!(Ok(10), convert_to_arabic("X".to_string()));
    assert_eq!(Ok(50), convert_to_arabic("L".to_string()));
    assert_eq!(Ok(100), convert_to_arabic("C".to_string()));
    assert_eq!(Ok(500), convert_to_arabic("D".to_string()));
    assert_eq!(Ok(1000), convert_to_arabic("M".to_string()));
    assert_eq!(Ok(9), convert_to_arabic("IX".to_string()));
    assert_eq!(Ok(14), convert_to_arabic("XIV".to_string()));
    assert_eq!(Ok(1776), convert_to_arabic("MDCCLXXVI".to_string()));
    assert_eq!(Ok(1918), convert_to_arabic("MCMXVIII".to_string()));
    assert_eq!(Ok(3999), convert_to_arabic("MMMCMXCIX".to_string()));
}

#[test]
fn test_converting_with_invalid_characters() {
    assert_eq!(
        Err("Unknown roman character `N`".to_string()),
        convert_to_arabic("INI".to_string())
    )
}

#[test]
fn test_validate_lowercase_mixed_case() {
    assert_eq!(Ok(String::from("MDCLXVI")), validate_roman_input("mDcLxVi"));
}

#[test]
fn test_validate_invalid_keeps_original_case() {
    assert_eq!(
        Err(String::from(
            "Input `xyz` contains invalid Roman characters. Should only contain C, D, I, L, M, V, X."
        )),
        validate_roman_input("xyz")
    );
}

#[test]
fn test_empty_string_validates_and_converts_to_zero() {
    assert_eq!(Ok(String::new()), validate_roman_input(""));
    assert_eq!(Ok(0), convert_to_arabic(String::new()));
}

#[test]
fn test_unknown_character_reported_is_the_first() {
    assert_eq!(
        Err("Unknown roman character `a`".to_string()),
        convert_to_arabic("XaQ".to_string())
    );
}

#[test]
fn test_accumulator_fits() {
    assert!(accumulator_fits("XIV"));
    assert!(accumulator_fits("MMMCMXCIX"));
    assert!(accumulator_fits(""));
    // a non-Roman character means conversion rejects the string before
    // accumulating, so the check holds vacuously
    assert!(accumulator_fits("INI"));
    // 33 times M: the running total 33000 leaves the i16 range
    let long = "M".repeat(33);
    assert!(!accumulator_fits(&long));
    // 32 times M still fits
    let shorter = "M".repeat(32);
    assert!(accumulator_fits(&shorter));
    assert_eq!(Ok(32000), convert_to_arabic(shorter));
}
