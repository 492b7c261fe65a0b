//! Conversion between Roman numeral strings and Arabic integers in 1..=3999.
//!
//! Each direction has a validator and a converter: `to_arabic` validates a
//! Roman numeral string and computes its integer value, `to_roman` validates
//! an integer string and renders the canonical Roman numeral. The shared
//! mathematical model of Roman numerals lives in `numeral`.

pub mod command;
pub mod numeral;
pub mod to_arabic;
pub mod to_roman;
