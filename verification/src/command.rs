//! The two conversion requests a caller can make of the library.

use vstd::prelude::*;

verus! {

/// A conversion request: either a Roman numeral string to turn into an
/// Arabic number, or an Arabic number to turn into a Roman numeral string.
#[derive(Debug)]
pub enum Commands {
    ToArabic { roman: String },
    ToRoman { arabic: u16 },
}

} // verus!
