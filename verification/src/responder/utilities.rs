//! Helpers of the dashboard pages.

use crate::text::same_text;
use vstd::prelude::*;

verus! {

/// The balance that a query for the sum of an account's ledger rows came to:
/// the sum, and zero where the query failed or found no row.
pub fn get_balance(sum: &Option<i128>) -> (result: i128)
    ensures
        result == (match *sum {
            Some(amount) => amount,
            None => 0,
        }),
{
    match sum {
        Some(amount) => *amount,
        None => 0,
    }
}

/// Whether an optional argument is there and reads `against`.
pub fn check_argument_value(argument: &Option<String>, against: &str) -> (result: bool)
    ensures
        result == (argument is Some && argument->Some_0@ == against@),
{
    match argument {
        Some(value) => same_text(value.as_str(), against),
        None => false,
    }
}

} // verus!
