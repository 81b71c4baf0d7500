//! The values of the settings that a configuration leaves out.

use super::config::ConfigTrackerBanner;
use vstd::prelude::*;

verus! {

pub fn server_log_level() -> (result: String)
    ensures
        result@ == "error"@,
{
    "error".to_owned()
}

/// The address that the server listens on, as text.
pub fn server_inet() -> (result: String)
    ensures
        result@ == "[::1]:8080"@,
{
    "[::1]:8080".to_owned()
}

pub fn server_workers() -> (result: u16)
    ensures
        result == 4,
{
    4
}

pub fn database_pool_size() -> (result: u32)
    ensures
        result == 4,
{
    4
}

pub fn database_idle_timeout() -> (result: u64)
    ensures
        result == 300,
{
    300
}

pub fn database_connection_timeout() -> (result: u64)
    ensures
        result == 10,
{
    10
}

pub fn database_account_create_allow() -> (result: bool)
    ensures
        result,
{
    true
}

pub fn exchange_fixer_endpoint() -> (result: String)
    ensures
        result@ == "https://api.apilayer.com/fixer"@,
{
    "https://api.apilayer.com/fixer".to_owned()
}

pub fn exchange_currency_api_endpoint() -> (result: String)
    ensures
        result@ == "https://latest.currency-api.pages.dev/v1/"@,
{
    "https://latest.currency-api.pages.dev/v1/".to_owned()
}

pub fn email_smtp_host() -> (result: String)
    ensures
        result@ == "localhost"@,
{
    "localhost".to_owned()
}

pub fn email_smtp_port() -> (result: u16)
    ensures
        result == 587,
{
    587
}

pub fn email_smtp_encrypt() -> (result: bool)
    ensures
        result,
{
    true
}

/// The directory of the assets, as text.
pub fn assets_path() -> (result: String)
    ensures
        result@ == "./res/assets/"@,
{
    "./res/assets/".to_owned()
}

pub fn branding_page_title() -> (result: String)
    ensures
        result@ == "Affiliates"@,
{
    "Affiliates".to_owned()
}

pub fn tracker_track_parameter() -> (result: String)
    ensures
        result@ == "t"@,
{
    "t".to_owned()
}

/// A fifth, in millionths.
pub fn tracker_commission_default() -> (result: u32)
    ensures
        result == 200_000,
{
    200_000
}

pub fn tracker_banner() -> (result: Vec<ConfigTrackerBanner>)
    ensures
        result@.len() == 0,
{
    Vec::new()
}

pub fn payout_currency() -> (result: String)
    ensures
        result@ == "EUR"@,
{
    "EUR".to_owned()
}

/// A hundred units of the payout currency, in millionths.
pub fn payout_amount_minimum() -> (result: i64)
    ensures
        result == 100_000_000,
{
    100_000_000
}

} // verus!
