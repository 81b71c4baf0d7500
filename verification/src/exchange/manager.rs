//! The exchange rate store, the conversion into the payout currency and the
//! refresh cycle that keeps the store up to date.

use crate::config::config::{ConfigExchange, ConfigExchangeCurrencyAPI, ConfigExchangeFixer};
use crate::text::same_text;
use vstd::hash_map::StringHashMap;
use vstd::prelude::*;
use vstd::string::*;

verus! {

/// How many counted units make one unit of a currency: amounts are counted in
/// millionths.
pub const AMOUNT_SCALE: i64 = 1_000_000;

/// How many counted units of a rate make a rate of one: rates are counted in
/// billionths, so that a rate well below one keeps its leading digits.
pub const RATE_SCALE: i64 = 1_000_000_000;

/// The latest rates, by upper-case currency code. A rate says how many units of
/// that currency one unit of the payout currency buys, counted in billionths.
pub struct RateMap {
    rates: StringHashMap<i64>,
}

impl View for RateMap {
    type V = Map<Seq<char>, i64>;

    closed spec fn view(&self) -> Map<Seq<char>, i64> {
        self.rates@
    }
}

impl RateMap {
    /// A map without any rate.
    pub fn new() -> (result: RateMap)
        ensures
            result@ == Map::<Seq<char>, i64>::empty(),
    {
        RateMap { rates: StringHashMap::new() }
    }

    /// Sets the rate of `currency`, in place of an earlier one if there was one.
    pub fn insert(&mut self, currency: String, rate: i64)
        ensures
            final(self)@ == old(self)@.insert(currency@, rate),
    {
        self.rates.insert(currency, rate);
    }

    /// The rate of `currency`, if the map holds one.
    pub fn get(&self, currency: &str) -> (result: Option<i64>)
        ensures
            result == (if self@.contains_key(currency@) {
                Some(self@[currency@])
            } else {
                None
            }),
    {
        match self.rates.get(currency) {
            Some(rate) => Some(*rate),
            None => None,
        }
    }

    /// How many currencies have a rate.
    pub fn len(&self) -> (result: usize)
        ensures
            result == self@.len(),
    {
        self.rates.len()
    }
}

/// Replaces the stored rates by `rates` as a whole: nothing of the earlier map
/// is kept and nothing is merged.
pub fn store_rates(store: &mut RateMap, rates: RateMap)
    ensures
        final(store)@ == rates@,
{
    *store = rates;
}

/// What an amount in `currency` is worth in the payout currency, rounded down
/// to a counted unit, or `None` where the rates give no answer.
pub open spec fn normalized(
    rates: Map<Seq<char>, i64>,
    payout_currency: Seq<char>,
    amount: int,
    currency: Seq<char>,
) -> Option<int> {
    if currency == payout_currency {
        Some(amount)
    } else if rates.contains_key(currency) && rates[currency] > 0 {
        Some((amount * RATE_SCALE as int) / (rates[currency] as int))
    } else {
        None
    }
}

/// The largest size of what `amount` can convert to: its own size, scaled.
pub open spec fn amount_span(amount: int) -> int {
    if amount >= 0 {
        amount * RATE_SCALE as int
    } else {
        -amount * RATE_SCALE as int
    }
}

/// The quotient of `numerator` by `rate`, rounded towards minus infinity.
fn floor_quotient(numerator: i128, rate: i64) -> (result: i128)
    requires
        rate > 0,
        -9_223_372_036_854_775_808_000_000_000 <= numerator
            <= 9_223_372_036_854_775_808_000_000_000,
    ensures
        result == numerator as int / rate as int,
        numerator >= 0 ==> 0 <= result <= numerator,
        numerator < 0 ==> numerator <= result < 0,
{
    let divisor: u128 = rate as u128;
    if numerator >= 0 {
        let n: u128 = numerator as u128;
        let q: u128 = n / divisor;
        assert(n as int / divisor as int <= n as int) by (nonlinear_arith)
            requires
                n >= 0,
                divisor >= 1,
        ;
        q as i128
    } else {
        let n: u128 = (-numerator) as u128;
        let q: u128 = n / divisor;
        let r: u128 = n % divisor;
        proof {
            let d = divisor as int;
            vstd::arithmetic::div_mod::lemma_fundamental_div_mod(n as int, d);
            assert(q as int <= n as int) by (nonlinear_arith)
                requires
                    q == n as int / d,
                    n >= 0,
                    d >= 1,
            ;
            if r == 0 {
                assert(numerator as int == (-(q as int)) * d + 0) by (nonlinear_arith)
                    requires
                        n as int == d * (q as int) + 0,
                        numerator as int == -(n as int),
                ;
                vstd::arithmetic::div_mod::lemma_fundamental_div_mod_converse(
                    numerator as int,
                    d,
                    -(q as int),
                    0,
                );
                assert(q > 0) by (nonlinear_arith)
                    requires
                        n as int == d * (q as int),
                        n > 0,
                        d > 0,
                ;
            } else {
                assert(numerator as int == (-(q as int) - 1) * d + (d - r as int))
                    by (nonlinear_arith)
                    requires
                        n as int == d * (q as int) + r as int,
                        numerator as int == -(n as int),
                ;
                vstd::arithmetic::div_mod::lemma_fundamental_div_mod_converse(
                    numerator as int,
                    d,
                    -(q as int) - 1,
                    d - r as int,
                );
                assert(q as int + 1 <= n as int) by (nonlinear_arith)
                    requires
                        n as int == d * (q as int) + r as int,
                        r > 0,
                        q >= 0,
                        d >= 1,
                ;
            }
        }
        if r == 0 {
            -(q as i128)
        } else {
            -(q as i128) - 1
        }
    }
}

/// Converts `amount`, given in `currency`, into the payout currency.
///
/// An amount already in the payout currency comes back unchanged, whatever the
/// rates hold. Any other currency needs a rate above zero: the amount is then
/// divided by it. A missing rate, or one that is zero or negative, is an error.
pub fn normalize(rates: &RateMap, payout_currency: &str, amount: i64, currency: &str) -> (result:
    Result<i128, ()>)
    ensures
        result.is_ok() == normalized(rates@, payout_currency@, amount as int, currency@).is_some(),
        result.is_ok() ==> result.unwrap() as int == normalized(
            rates@,
            payout_currency@,
            amount as int,
            currency@,
        ).unwrap(),
        result.is_ok() ==> -(amount_span(amount as int)) <= result.unwrap() <= amount_span(
            amount as int,
        ),
{
    if same_text(currency, payout_currency) {
        Ok(amount as i128)
    } else {
        match rates.get(currency) {
            Some(rate) => {
                if rate > 0 {
                    let numerator: i128 = (amount as i128) * (RATE_SCALE as i128);
                    Ok(floor_quotient(numerator, rate))
                } else {
                    Err(())
                }
            },
            None => Err(()),
        }
    }
}

/// An amount in the payout currency is worth itself under any rates, even
/// under none at all.
pub proof fn lemma_payout_currency_unchanged(
    rates: Map<Seq<char>, i64>,
    payout_currency: Seq<char>,
    amount: int,
)
    ensures
        normalized(rates, payout_currency, amount, payout_currency) == Some(amount),
{
}

/// Under a rate `r` above zero the converted amount `v` is the amount divided
/// by the rate and rounded down: in counted units, `v * r` is at most the
/// scaled amount and misses it by less than `r`, that is by less than one
/// counted unit of the result.
pub proof fn lemma_normalized_divides_by_rate(
    rates: Map<Seq<char>, i64>,
    payout_currency: Seq<char>,
    amount: int,
    currency: Seq<char>,
)
    requires
        currency != payout_currency,
        rates.contains_key(currency),
        rates[currency] > 0,
    ensures
        normalized(rates, payout_currency, amount, currency).is_some(),
        ({
            let v = normalized(rates, payout_currency, amount, currency).unwrap();
            let r = rates[currency] as int;
            v * r <= amount * (RATE_SCALE as int) && amount * (RATE_SCALE as int) < v * r + r
        }),
{
    let r = rates[currency] as int;
    let n = amount * RATE_SCALE as int;
    vstd::arithmetic::div_mod::lemma_fundamental_div_mod(n, r);
    vstd::arithmetic::div_mod::lemma_mod_bound(n, r);
    assert((n / r) * r == r * (n / r)) by (nonlinear_arith);
}

/// A currency other than the payout currency cannot be converted while the
/// rates lack it, nor while its rate is zero or negative.
pub proof fn lemma_normalized_fails_without_rate(
    rates: Map<Seq<char>, i64>,
    payout_currency: Seq<char>,
    amount: int,
    currency: Seq<char>,
)
    requires
        currency != payout_currency,
        !rates.contains_key(currency) || rates[currency] <= 0,
    ensures
        normalized(rates, payout_currency, amount, currency).is_none(),
{
}

/// Seconds after which a request for rates is given up.
pub const REQUEST_TIMEOUT_SECONDS: u64 = 20;

/// The status of an answer that is read; any other is a failure.
pub const STATUS_OK: u16 = 200;

/// A request for rates: the address to get and, where the provider wants one,
/// the access key that goes into the `apikey` header.
pub struct RateRequest {
    pub url: String,
    pub api_key: Option<String>,
}

/// One member of a rates object: a currency code, spelled as the provider
/// spells it, and its rate in billionths, or `None` where the member is not a
/// number.
pub struct RateLeaf {
    pub code: String,
    pub rate: Option<i64>,
}

/// The value of a member of a parsed document, as far as rates are read from
/// it: an object with its members, or anything else.
pub enum DocumentValue {
    Object(Vec<RateLeaf>),
    Other,
}

/// One member of a parsed document.
pub struct DocumentEntry {
    pub key: String,
    pub value: DocumentValue,
}

/// `text` in lower case, as `str::to_lowercase` gives it.
pub uninterp spec fn lowercase(text: Seq<char>) -> Seq<char>;

/// `text` in upper case, as `str::to_uppercase` gives it.
pub uninterp spec fn uppercase(text: Seq<char>) -> Seq<char>;

/// Upper-cases a string slice with `str::to_uppercase`, whose result depends
/// on the characters of the slice alone.
#[verifier::external_body]
fn to_uppercase(text: &str) -> (result: String)
    ensures
        result@ == uppercase(text@),
{
    text.to_uppercase()
}

/// Lower-cases a string slice with `str::to_lowercase`, whose result depends
/// on the characters of the slice alone.
#[verifier::external_body]
fn to_lowercase(text: &str) -> (result: String)
    ensures
        result@ == lowercase(text@),
{
    text.to_lowercase()
}

/// The address of the latest rates on the base `payout_currency`.
pub open spec fn fixer_url(endpoint: Seq<char>, payout_currency: Seq<char>) -> Seq<char> {
    endpoint + "/latest?base="@ + payout_currency
}

/// The address of the document for the base `payout_currency`, whose name is
/// the currency code in lower case.
pub open spec fn currency_api_url(endpoint: Seq<char>, payout_currency: Seq<char>) -> Seq<char> {
    endpoint + "/currencies/"@ + lowercase(payout_currency) + ".min.json"@
}

/// The request to the first provider.
pub fn fixer_request(fixer: &ConfigExchangeFixer, payout_currency: &str) -> (request: RateRequest)
    ensures
        request.url@ == fixer_url(fixer.endpoint@, payout_currency@),
        request.api_key is Some,
        request.api_key->Some_0@ == fixer.api_key@,
{
    let mut url = fixer.endpoint.clone();
    url.append("/latest?base=");
    url.append(payout_currency);
    RateRequest { url, api_key: Some(fixer.api_key.clone()) }
}

/// The request to the second provider for the document named `base_currency`.
pub fn currency_api_document_request(
    api: &ConfigExchangeCurrencyAPI,
    base_currency: &str,
) -> (request: RateRequest)
    ensures
        request.url@ == api.endpoint@ + "/currencies/"@ + base_currency@ + ".min.json"@,
        request.api_key is None,
{
    let mut url = api.endpoint.clone();
    url.append("/currencies/");
    url.append(base_currency);
    url.append(".min.json");
    RateRequest { url, api_key: None }
}

/// The request to the second provider.
pub fn currency_api_request(api: &ConfigExchangeCurrencyAPI, payout_currency: &str) -> (request:
    RateRequest)
    ensures
        request.url@ == currency_api_url(api.endpoint@, payout_currency@),
        request.api_key is None,
{
    let base_currency = to_lowercase(payout_currency);
    currency_api_document_request(api, base_currency.as_str())
}

/// The request that a refresh makes: to the first provider where it is set
/// up, else to the second, and none where neither is.
pub fn rates_request(exchange: &ConfigExchange, payout_currency: &str) -> (request: Option<
    RateRequest,
>)
    ensures
        match (exchange.fixer, exchange.currency_api) {
            (Some(fixer), _) => {
                &&& request is Some
                &&& request->Some_0.url@ == fixer_url(fixer.endpoint@, payout_currency@)
                &&& request->Some_0.api_key is Some
                &&& request->Some_0.api_key->Some_0@ == fixer.api_key@
            },
            (None, Some(api)) => {
                &&& request is Some
                &&& request->Some_0.url@ == currency_api_url(api.endpoint@, payout_currency@)
                &&& request->Some_0.api_key is None
            },
            (None, None) => request is None,
        },
{
    match &exchange.fixer {
        Some(fixer) => Some(fixer_request(fixer, payout_currency)),
        None => match &exchange.currency_api {
            Some(api) => Some(currency_api_request(api, payout_currency)),
            None => None,
        },
    }
}

/// The rates that the members of an object give, read in order: every member
/// that is a number sets the rate of its code, a later one in place of an
/// earlier one; the others are passed over. The codes are stored in upper
/// case, however the provider spells them, so that the map is keyed as the
/// currencies of payments are.
pub open spec fn rates_of(leaves: Seq<RateLeaf>) -> Map<Seq<char>, i64>
    decreases leaves.len(),
{
    if leaves.len() == 0 {
        Map::empty()
    } else {
        let before = rates_of(leaves.drop_last());
        match leaves.last().rate {
            Some(rate) => before.insert(uppercase(leaves.last().code@), rate),
            None => before,
        }
    }
}

/// Every member is a number.
pub open spec fn all_numbers(leaves: Seq<RateLeaf>) -> bool {
    forall|i: int| 0 <= i < leaves.len() ==> (#[trigger] leaves[i]).rate is Some
}

/// The member at `index` is the first whose key is `key`.
pub open spec fn first_named(entries: Seq<DocumentEntry>, key: Seq<char>, index: int) -> bool {
    &&& 0 <= index < entries.len()
    &&& entries[index].key@ == key
    &&& forall|j: int| 0 <= j < index ==> (#[trigger] entries[j]).key@ != key
}

/// No member has the key `key`.
pub open spec fn not_named(entries: Seq<DocumentEntry>, key: Seq<char>) -> bool {
    forall|j: int| 0 <= j < entries.len() ==> (#[trigger] entries[j]).key@ != key
}

fn collect_rates(leaves: &Vec<RateLeaf>) -> (rates: RateMap)
    ensures
        rates@ == rates_of(leaves@),
{
    let mut rates = RateMap::new();
    let mut i: usize = 0;
    while i < leaves.len()
        invariant
            i <= leaves.len(),
            rates@ == rates_of(leaves@.take(i as int)),
        decreases leaves.len() - i,
    {
        proof {
            assert(leaves@.take(i + 1).drop_last() == leaves@.take(i as int));
        }
        match leaves[i].rate {
            Some(rate) => {
                rates.insert(to_uppercase(leaves[i].code.as_str()), rate);
            },
            None => {},
        }
        i += 1;
    }
    proof {
        assert(leaves@.take(leaves.len() as int) == leaves@);
    }
    rates
}

fn only_numbers(leaves: &Vec<RateLeaf>) -> (result: bool)
    ensures
        result == all_numbers(leaves@),
{
    let mut i: usize = 0;
    while i < leaves.len()
        invariant
            i <= leaves.len(),
            forall|j: int| 0 <= j < i ==> (#[trigger] leaves@[j]).rate is Some,
        decreases leaves.len() - i,
    {
        if leaves[i].rate.is_none() {
            return false;
        }
        i += 1;
    }
    true
}

fn find_named(entries: &Vec<DocumentEntry>, key: &str) -> (result: Option<usize>)
    ensures
        match result {
            Some(index) => first_named(entries@, key@, index as int),
            None => not_named(entries@, key@),
        },
{
    let mut i: usize = 0;
    while i < entries.len()
        invariant
            i <= entries.len(),
            forall|j: int| 0 <= j < i ==> (#[trigger] entries@[j]).key@ != key@,
        decreases entries.len() - i,
    {
        if same_text(entries[i].key.as_str(), key) {
            return Some(i);
        }
        i += 1;
    }
    None
}

/// The rates that the member at `index` gives to the first provider: those of
/// its members where it is an object of numbers only, and none at all where
/// it is anything else.
pub open spec fn fixer_rates_at(entries: Seq<DocumentEntry>, index: int) -> Option<
    Map<Seq<char>, i64>,
> {
    match entries[index].value {
        DocumentValue::Object(leaves) => if all_numbers(leaves@) {
            Some(rates_of(leaves@))
        } else {
            None
        },
        DocumentValue::Other => None,
    }
}

/// The rates that the member at `index` gives to the second provider: its
/// numbers where it is an object, and none at all where it is anything else.
pub open spec fn document_rates_at(entries: Seq<DocumentEntry>, index: int) -> Option<
    Map<Seq<char>, i64>,
> {
    match entries[index].value {
        DocumentValue::Object(leaves) => Some(rates_of(leaves@)),
        DocumentValue::Other => None,
    }
}

/// `result` is what the answer of the first provider comes to: the rates
/// under the first member named `rates` where the status is 200 and that
/// member is an object of numbers only, and a failure in every other case.
pub open spec fn fixer_answer(
    result: Result<RateMap, ()>,
    status: u16,
    document: Option<Vec<DocumentEntry>>,
) -> bool {
    if status == STATUS_OK && document is Some && !not_named(document->Some_0@, "rates"@) {
        forall|index: int| #[trigger]
            first_named(document->Some_0@, "rates"@, index) ==> (match fixer_rates_at(
                document->Some_0@,
                index,
            ) {
                Some(rates) => result is Ok && result->Ok_0@ == rates,
                None => result is Err,
            })
    } else {
        result is Err
    }
}

/// `result` is what a document comes to under the member named `key`: the
/// rates of the first member of that name where the status is 200 and that
/// member is an object, and a failure in every other case.
pub open spec fn document_answer(
    result: Result<RateMap, ()>,
    status: u16,
    document: Option<Vec<DocumentEntry>>,
    key: Seq<char>,
) -> bool {
    if status == STATUS_OK && document is Some && !not_named(document->Some_0@, key) {
        forall|index: int| #[trigger]
            first_named(document->Some_0@, key, index) ==> (match document_rates_at(
                document->Some_0@,
                index,
            ) {
                Some(rates) => result is Ok && result->Ok_0@ == rates,
                None => result is Err,
            })
    } else {
        result is Err
    }
}

proof fn lemma_first_named_is_one(entries: Seq<DocumentEntry>, key: Seq<char>, index: int)
    requires
        first_named(entries, key, index),
    ensures
        !not_named(entries, key),
        forall|other: int| #[trigger] first_named(entries, key, other) ==> other == index,
{
    assert(entries[index].key@ == key);
    assert forall|other: int| #[trigger] first_named(entries, key, other) implies other
        == index by {
        if other < index {
            assert(entries[other].key@ == key);
        } else if index < other {
            assert(entries[index].key@ == key);
        }
    }
}

/// Reads the answer of the first provider. `document` holds the members of
/// the body, or `None` where the body is no object. The rates stand under the
/// member named `rates`.
///
/// The rates are taken only from an answer with the status 200 whose rates
/// are all numbers; anything else is a failure, and no rate is taken from it.
pub fn get_rates_from_fixer(status: u16, document: &Option<Vec<DocumentEntry>>) -> (result: Result<
    RateMap,
    (),
>)
    ensures
        fixer_answer(result, status, *document),
{
    if status != STATUS_OK {
        return Err(());
    }
    match document {
        Some(entries) => {
            match find_named(entries, "rates") {
                Some(index) => {
                    proof {
                        lemma_first_named_is_one(entries@, "rates"@, index as int);
                    }
                    match &entries[index].value {
                        DocumentValue::Object(leaves) => {
                            if only_numbers(leaves) {
                                Ok(collect_rates(leaves))
                            } else {
                                Err(())
                            }
                        },
                        DocumentValue::Other => Err(()),
                    }
                },
                None => Err(()),
            }
        },
        None => Err(()),
    }
}

/// The rates that a parsed document gives under the member named `key`.
///
/// They are the numbers of the first member whose key is `key`. A status
/// other than 200, a body that is no object, a document without that member
/// and a member that is no object are failures, all alike: no map comes from
/// any of them.
pub fn get_rates_from_document(
    status: u16,
    document: &Option<Vec<DocumentEntry>>,
    key: &str,
) -> (result: Result<RateMap, ()>)
    ensures
        document_answer(result, status, *document, key@),
{
    if status != STATUS_OK {
        return Err(());
    }
    match document {
        Some(entries) => {
            match find_named(entries, key) {
                Some(index) => {
                    proof {
                        lemma_first_named_is_one(entries@, key@, index as int);
                    }
                    match &entries[index].value {
                        DocumentValue::Object(leaves) => Ok(collect_rates(leaves)),
                        DocumentValue::Other => Err(()),
                    }
                },
                None => Err(()),
            }
        },
        None => Err(()),
    }
}

/// Reads the answer of the second provider. `document` holds the members of
/// the body, or `None` where the body is no object. The rates stand under the
/// member named by the payout currency in lower case.
pub fn get_rates_from_currency_api(
    status: u16,
    document: &Option<Vec<DocumentEntry>>,
    payout_currency: &str,
) -> (result: Result<RateMap, ()>)
    ensures
        document_answer(result, status, *document, lowercase(payout_currency@)),
{
    let base_currency = to_lowercase(payout_currency);
    get_rates_from_document(status, document, base_currency.as_str())
}

/// Reads the answer to the request that `rates_request` makes: that of the
/// first provider where it is set up, else that of the second, and a failure
/// where neither is.
pub fn get_rates(
    exchange: &ConfigExchange,
    status: u16,
    document: &Option<Vec<DocumentEntry>>,
    payout_currency: &str,
) -> (result: Result<RateMap, ()>)
    ensures
        match (exchange.fixer, exchange.currency_api) {
            (Some(_), _) => fixer_answer(result, status, *document),
            (None, Some(_)) => document_answer(
                result,
                status,
                *document,
                lowercase(payout_currency@),
            ),
            (None, None) => result is Err,
        },
{
    match &exchange.fixer {
        Some(_) => get_rates_from_fixer(status, document),
        None => match &exchange.currency_api {
            Some(_) => get_rates_from_currency_api(status, document, payout_currency),
            None => Err(()),
        },
    }
}

/// Seconds between two refresh cycles.
pub const POLL_RATE_SECONDS: u64 = 259200;

/// Seconds between a failed request and the retry.
pub const RETRY_POLL_SECONDS: u64 = 60;

/// How many retries a cycle may make after its first request.
pub const RETRY_POLL_ATTEMPTS_LIMIT: u16 = 2;

/// Where the refresh cycle stands.
#[derive(Clone, Copy, Debug, PartialEq, Eq, Structural)]
pub enum PollState {
    /// Waiting for the next cycle; the last one, if any, was given up.
    Idle,
    /// A request for rates is under way, after `retries` retries.
    Fetching { retries: u16 },
    /// The last request failed; the retry numbered `retries` starts after a
    /// short sleep.
    Retrying { retries: u16 },
    /// Waiting for the next cycle; the last one stored new rates after
    /// `retries` retries.
    Published { retries: u16 },
}

/// What can happen to the refresh cycle, without the rates that a successful
/// request brings.
#[derive(Clone, Copy, Debug, PartialEq, Eq, Structural)]
pub enum PollSignal {
    Woke,
    Fetched,
    Failed,
}

/// What happened: a sleep ended, or the request under way came back.
pub enum PollEvent {
    Woke,
    Fetched(RateMap),
    Failed,
}

impl PollEvent {
    /// The event without its rates.
    pub open spec fn signal(&self) -> PollSignal {
        match self {
            PollEvent::Woke => PollSignal::Woke,
            PollEvent::Fetched(_) => PollSignal::Fetched,
            PollEvent::Failed => PollSignal::Failed,
        }
    }

    /// The rates that the event brings, if it brings any.
    pub open spec fn fetched(&self) -> Map<Seq<char>, i64> {
        match self {
            PollEvent::Fetched(rates) => rates@,
            _ => Map::empty(),
        }
    }
}

/// What the caller does next.
#[derive(Clone, Copy, Debug, PartialEq, Eq, Structural)]
pub enum PollAction {
    /// Request the rates and report `Fetched` or `Failed`.
    Fetch,
    /// Sleep for so many seconds and report `Woke`.
    Sleep(u64),
    /// The event does not belong to the state: go on as before.
    Ignore,
}

/// The state that follows `state` on `signal`.
pub open spec fn next_state(state: PollState, signal: PollSignal) -> PollState {
    match (state, signal) {
        (PollState::Idle, PollSignal::Woke) => PollState::Fetching { retries: 0 },
        (PollState::Published { .. }, PollSignal::Woke) => PollState::Fetching { retries: 0 },
        (PollState::Retrying { retries }, PollSignal::Woke) => PollState::Fetching { retries },
        (PollState::Fetching { retries }, PollSignal::Fetched) => PollState::Published { retries },
        (PollState::Fetching { retries }, PollSignal::Failed) => if retries
            < RETRY_POLL_ATTEMPTS_LIMIT {
            PollState::Retrying { retries: (retries + 1) as u16 }
        } else {
            PollState::Idle
        },
        _ => state,
    }
}

/// What the caller is told to do when `signal` arrives in `state`.
pub open spec fn next_action(state: PollState, signal: PollSignal) -> PollAction {
    match (state, signal) {
        (PollState::Idle, PollSignal::Woke) => PollAction::Fetch,
        (PollState::Published { .. }, PollSignal::Woke) => PollAction::Fetch,
        (PollState::Retrying { .. }, PollSignal::Woke) => PollAction::Fetch,
        (PollState::Fetching { .. }, PollSignal::Fetched) => PollAction::Sleep(POLL_RATE_SECONDS),
        (PollState::Fetching { retries }, PollSignal::Failed) => if retries
            < RETRY_POLL_ATTEMPTS_LIMIT {
            PollAction::Sleep(RETRY_POLL_SECONDS)
        } else {
            PollAction::Sleep(POLL_RATE_SECONDS)
        },
        _ => PollAction::Ignore,
    }
}

/// The rates in force after `signal` arrived in `state`: those just fetched
/// where a request under way succeeded, else the stored ones, untouched.
pub open spec fn next_rates(
    state: PollState,
    signal: PollSignal,
    stored: Map<Seq<char>, i64>,
    fetched: Map<Seq<char>, i64>,
) -> Map<Seq<char>, i64> {
    match (state, signal) {
        (PollState::Fetching { .. }, PollSignal::Fetched) => fetched,
        _ => stored,
    }
}

/// One step of the refresh cycle: takes what happened, stores the rates that a
/// successful request brought, and says what to do next.
///
/// A cycle starts with a request. Success stores the rates and ends the cycle
/// with the long sleep. A failure is followed by a short sleep and a retry, up
/// to `RETRY_POLL_ATTEMPTS_LIMIT` retries; the failure after the last of them
/// ends the cycle with the long sleep, and the stored rates stay as they were.
pub fn update_rates(store: &mut RateMap, state: PollState, event: PollEvent) -> (next: (
    PollState,
    PollAction,
))
    ensures
        next.0 == next_state(state, event.signal()),
        next.1 == next_action(state, event.signal()),
        final(store)@ == next_rates(state, event.signal(), old(store)@, event.fetched()),
{
    match state {
        PollState::Idle | PollState::Published { .. } => match event {
            PollEvent::Woke => (PollState::Fetching { retries: 0 }, PollAction::Fetch),
            _ => (state, PollAction::Ignore),
        },
        PollState::Retrying { retries } => match event {
            PollEvent::Woke => (PollState::Fetching { retries }, PollAction::Fetch),
            _ => (state, PollAction::Ignore),
        },
        PollState::Fetching { retries } => match event {
            PollEvent::Fetched(rates) => {
                store_rates(store, rates);
                (PollState::Published { retries }, PollAction::Sleep(POLL_RATE_SECONDS))
            },
            PollEvent::Failed => {
                if retries < RETRY_POLL_ATTEMPTS_LIMIT {
                    (
                        PollState::Retrying { retries: retries + 1 },
                        PollAction::Sleep(RETRY_POLL_SECONDS),
                    )
                } else {
                    (PollState::Idle, PollAction::Sleep(POLL_RATE_SECONDS))
                }
            },
            PollEvent::Woke => (state, PollAction::Ignore),
        },
    }
}

/// Where a cycle ends, and with which rates, when it stands in `state`, the
/// next `failures` requests fail and the one after them brings `fetched`.
pub open spec fn cycle_end(
    state: PollState,
    failures: nat,
    stored: Map<Seq<char>, i64>,
    fetched: Map<Seq<char>, i64>,
) -> (PollState, Map<Seq<char>, i64>)
    decreases failures, (if state is Retrying { 1nat } else { 0nat }),
{
    match state {
        PollState::Fetching { .. } => if failures == 0 {
            (
                next_state(state, PollSignal::Fetched),
                next_rates(state, PollSignal::Fetched, stored, fetched),
            )
        } else {
            cycle_end(
                next_state(state, PollSignal::Failed),
                (failures - 1) as nat,
                next_rates(state, PollSignal::Failed, stored, fetched),
                fetched,
            )
        },
        PollState::Retrying { .. } => cycle_end(
            next_state(state, PollSignal::Woke),
            failures,
            next_rates(state, PollSignal::Woke, stored, fetched),
            fetched,
        ),
        _ => (state, stored),
    }
}

/// A cycle whose requests fail `failures` times and then succeed stores the
/// fetched rates after exactly `failures` retries where `failures` is within
/// the retry limit. Beyond the limit the cycle is given up and the rates
/// stored before it stay in force.
pub proof fn lemma_cycle_retries(
    failures: nat,
    stored: Map<Seq<char>, i64>,
    fetched: Map<Seq<char>, i64>,
)
    ensures
        failures <= RETRY_POLL_ATTEMPTS_LIMIT ==> cycle_end(
            PollState::Fetching { retries: 0 },
            failures,
            stored,
            fetched,
        ) == (PollState::Published { retries: failures as u16 }, fetched),
        failures > RETRY_POLL_ATTEMPTS_LIMIT ==> cycle_end(
            PollState::Fetching { retries: 0 },
            failures,
            stored,
            fetched,
        ) == (PollState::Idle, stored),
{
    lemma_cycle_from(0, failures, stored, fetched);
}

/// The same, for a cycle that has made `retries` retries already.
pub proof fn lemma_cycle_from(
    retries: u16,
    failures: nat,
    stored: Map<Seq<char>, i64>,
    fetched: Map<Seq<char>, i64>,
)
    requires
        retries <= RETRY_POLL_ATTEMPTS_LIMIT,
    ensures
        retries + failures <= RETRY_POLL_ATTEMPTS_LIMIT ==> cycle_end(
            PollState::Fetching { retries },
            failures,
            stored,
            fetched,
        ) == (PollState::Published { retries: (retries + failures) as u16 }, fetched),
        retries + failures > RETRY_POLL_ATTEMPTS_LIMIT ==> cycle_end(
            PollState::Fetching { retries },
            failures,
            stored,
            fetched,
        ) == (PollState::Idle, stored),
    decreases failures,
{
    if failures > 0 {
        if retries < RETRY_POLL_ATTEMPTS_LIMIT {
            let after = (retries + 1) as u16;
            assert(cycle_end(PollState::Fetching { retries }, failures, stored, fetched)
                == cycle_end(
                PollState::Retrying { retries: after },
                (failures - 1) as nat,
                stored,
                fetched,
            ));
            assert(cycle_end(
                PollState::Retrying { retries: after },
                (failures - 1) as nat,
                stored,
                fetched,
            ) == cycle_end(
                PollState::Fetching { retries: after },
                (failures - 1) as nat,
                stored,
                fetched,
            ));
            lemma_cycle_from(after, (failures - 1) as nat, stored, fetched);
        } else {
            assert(cycle_end(PollState::Fetching { retries }, failures, stored, fetched)
                == cycle_end(PollState::Idle, (failures - 1) as nat, stored, fetched));
        }
    }
}

} // verus!
