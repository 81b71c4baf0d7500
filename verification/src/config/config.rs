//! The settings that the library reads.

use vstd::prelude::*;

verus! {

/// The rate provider that answers `latest` requests and wants an access key.
pub struct ConfigExchangeFixer {
    pub endpoint: String,
    pub api_key: String,
}

/// The rate provider that serves one document per base currency.
pub struct ConfigExchangeCurrencyAPI {
    pub endpoint: String,
}

/// The rate providers that are set up. At most one is asked: the first of the
/// two that is there.
pub struct ConfigExchange {
    pub fixer: Option<ConfigExchangeFixer>,
    pub currency_api: Option<ConfigExchangeCurrencyAPI>,
}

/// A banner that account owners can show with a tracker.
pub struct ConfigTrackerBanner {
    pub banner_url: String,
    pub size_width: u16,
    pub size_height: u16,
}

} // verus!
