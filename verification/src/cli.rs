//! Interpreting terminal answers.

use vstd::prelude::*;
use crate::util::str_eq;

verus! {

/// Whether a trimmed yes/no answer counts as yes; everything but the five
/// affirmative spellings is no.
pub fn parse_yes(answer: &str) -> (r: bool)
    ensures
        r == (answer@ == "y"@ || answer@ == "Y"@ || answer@ == "yes"@ || answer@ == "YES"@
            || answer@ == "Yes"@),
{
    str_eq(answer, "y") || str_eq(answer, "Y") || str_eq(answer, "yes") || str_eq(answer, "YES")
        || str_eq(answer, "Yes")
}

} // verus!
