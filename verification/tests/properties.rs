use roman_numerals::command::Commands;
use roman_numerals::to_arabic::convert_to_arabic;
use roman_numerals::to_arabic::validate_roman_input;
use roman_numerals::to_roman::convert_to_roman;
use roman_numerals::to_roman::validate_arabic_input;

#[test]
fn test_round_trip_all_values() {
    for n in 1u16..=3999 {
        let roman = convert_to_roman(n).unwrap();
        assert_eq!(Ok(n as i16), convert_to_arabic(roman));
    }
}

#[test]
fn test_validation_idempotent() {
    for s in ["mcmxii", "XIV", "iiii", "vx", ""] {
        let once = validate_roman_input(s).unwrap();
        assert_eq!(Ok(once.clone()), validate_roman_input(&once));
    }
}

#[test]
fn test_validate_then_convert_agrees() {
    for (s, expected) in [("1", 1u16), ("42", 42), ("500", 500), ("3999", 3999)] {
        let n = validate_arabic_input(s).unwrap();
        assert_eq!(n, expected);
        assert!(convert_to_roman(n).is_ok());
    }
}

#[test]
fn test_commands_carry_their_inputs() {
    let c = Commands::ToArabic { roman: "XIV".to_string() };
    match c {
        Commands::ToArabic { roman } => assert_eq!(roman, "XIV"),
        Commands::ToRoman { .. } => panic!("wrong variant"),
    }
    let c = Commands::ToRoman { arabic: 14 };
    match c {
        Commands::ToArabic { .. } => panic!("wrong variant"),
        Commands::ToRoman { arabic } => assert_eq!(arabic, 14),
    }
}
