//! The records that the ledger store keeps.

use vstd::prelude::*;

verus! {

/// An affiliate. `commission` is the share of every referred payment that the
/// account earns, in millionths (200 000 is a fifth).
pub struct Account {
    pub id: i32,
    pub email: String,
    pub password: Vec<u8>,
    pub recovery: Option<Vec<u8>>,
    pub commission: u32,
    pub full_name: Option<String>,
    pub address: Option<String>,
    pub country: Option<String>,
    pub payout_method: Option<String>,
    pub payout_instructions: Option<String>,
    pub notify_balance: bool,
    pub created_at: i64,
    pub updated_at: i64,
}

/// One credited commission, in millionths of the payout currency.
pub struct Balance {
    pub id: i32,
    pub amount: i128,
    pub currency: String,
    pub released: bool,
    pub trace: Option<String>,
    pub account_id: i32,
    pub tracker_id: Option<String>,
    pub created_at: i64,
    pub updated_at: i64,
}

/// A payout requested by an account, in millionths of the payout currency.
pub struct Payout {
    pub id: i32,
    pub number: i32,
    pub amount: i128,
    pub currency: String,
    pub status: String,
    pub account: Option<String>,
    pub invoice_url: Option<String>,
    pub account_id: i32,
    pub created_at: i64,
    pub updated_at: i64,
}

/// A tracked link of an account, with the signups counted on it.
pub struct Tracker {
    pub id: String,
    pub label: String,
    pub statistics_signups: i32,
    pub account_id: i32,
    pub created_at: i64,
    pub updated_at: i64,
}

/// The change that sets an account's recovery password.
pub struct AccountRecoveryUpdate {
    pub recovery: Vec<u8>,
}

} // verus!
