//! Comparison of text.

use vstd::prelude::*;

verus! {

/// Compares two string slices with `str::eq`: they are equal exactly when
/// they hold the same characters in the same order.
#[verifier::external_body]
pub(crate) fn same_text(a: &str, b: &str) -> (result: bool)
    ensures
        result == (a@ == b@),
{
    a == b
}

} // verus!
