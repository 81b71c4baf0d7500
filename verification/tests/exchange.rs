use raider::config::config::{ConfigExchange, ConfigExchangeCurrencyAPI, ConfigExchangeFixer};
use raider::exchange::manager::{
    currency_api_document_request, currency_api_request, fixer_request,
    get_rates, get_rates_from_currency_api, get_rates_from_document, get_rates_from_fixer,
    normalize, rates_request, store_rates, update_rates, DocumentEntry, DocumentValue, PollAction,
    PollEvent, PollState, RateLeaf, RateMap, AMOUNT_SCALE, POLL_RATE_SECONDS, RATE_SCALE,
    RETRY_POLL_ATTEMPTS_LIMIT, RETRY_POLL_SECONDS,
};

fn rates(entries: &[(&str, i64)]) -> RateMap {
    let mut map = RateMap::new();
    for (code, rate) in entries {
        map.insert(code.to_string(), *rate);
    }
    map
}

fn leaf(code: &str, rate: Option<i64>) -> RateLeaf {
    RateLeaf { code: code.to_string(), rate }
}

#[test]
fn payout_currency_is_unchanged_without_any_rate() {
    let empty = RateMap::new();
    assert_eq!(normalize(&empty, "EUR", 100_000_000, "EUR"), Ok(100_000_000));
    assert_eq!(normalize(&empty, "EUR", 0, "EUR"), Ok(0));
    assert_eq!(normalize(&empty, "EUR", i64::MAX, "EUR"), Ok(i64::MAX as i128));
}

#[test]
fn payout_currency_is_unchanged_even_with_a_bad_rate_of_its_own() {
    let map = rates(&[("EUR", 0)]);
    assert_eq!(normalize(&map, "EUR", 5_000_000, "EUR"), Ok(5_000_000));
}

#[test]
fn amount_is_divided_by_the_rate() {
    let map = rates(&[("USD", 2_000_000_000), ("GBP", 500_000_000), ("JPY", 160_250_000_000)]);
    assert_eq!(normalize(&map, "EUR", 100_000_000, "USD"), Ok(50_000_000));
    assert_eq!(normalize(&map, "EUR", 10_000_000, "GBP"), Ok(20_000_000));
    assert_eq!(normalize(&map, "EUR", 1_000_000_000, "JPY"), Ok(6_240_249));
}

#[test]
fn conversion_rounds_down() {
    let map = rates(&[("USD", 3_000_000_000)]);
    assert_eq!(normalize(&map, "EUR", 1, "USD"), Ok(0));
    assert_eq!(normalize(&map, "EUR", 10, "USD"), Ok(3));
    assert_eq!(normalize(&map, "EUR", -1, "USD"), Ok(-1));
    assert_eq!(normalize(&map, "EUR", -9, "USD"), Ok(-3));
    assert_eq!(normalize(&map, "EUR", -10, "USD"), Ok(-4));
}

#[test]
fn conversion_of_the_largest_amounts_does_not_overflow() {
    let map = rates(&[("USD", 1)]);
    assert_eq!(
        normalize(&map, "EUR", i64::MAX, "USD"),
        Ok(i64::MAX as i128 * RATE_SCALE as i128)
    );
    assert_eq!(
        normalize(&map, "EUR", i64::MIN, "USD"),
        Ok(i64::MIN as i128 * RATE_SCALE as i128)
    );
}

#[test]
fn a_rate_far_below_one_keeps_its_digits() {
    let map = rates(&[("XBT", 10_500)]);
    assert_eq!(normalize(&map, "EUR", 1_000_000, "XBT"), Ok(95_238_095_238));
}

#[test]
fn scales_are_millionths_and_billionths() {
    assert_eq!(AMOUNT_SCALE, 1_000_000);
    assert_eq!(RATE_SCALE, 1_000_000_000);
}

#[test]
fn conversion_fails_without_a_rate() {
    let map = rates(&[("USD", 2_000_000_000)]);
    assert_eq!(normalize(&map, "EUR", 100_000_000, "CHF"), Err(()));
    assert_eq!(normalize(&RateMap::new(), "EUR", 100_000_000, "USD"), Err(()));
    assert_eq!(normalize(&map, "EUR", 100_000_000, "usd"), Err(()));
}

#[test]
fn conversion_fails_on_a_rate_that_is_not_above_zero() {
    let map = rates(&[("USD", 0), ("GBP", -1_000_000_000)]);
    assert_eq!(normalize(&map, "EUR", 100_000_000, "USD"), Err(()));
    assert_eq!(normalize(&map, "EUR", 100_000_000, "GBP"), Err(()));
}

#[test]
fn rate_map_keeps_the_last_rate_of_a_currency() {
    let mut map = RateMap::new();
    assert_eq!(map.len(), 0);
    assert_eq!(map.get("USD"), None);
    map.insert("USD".to_string(), 1_100_000_000);
    map.insert("USD".to_string(), 1_200_000_000);
    map.insert("GBP".to_string(), 900_000_000);
    assert_eq!(map.len(), 2);
    assert_eq!(map.get("USD"), Some(1_200_000_000));
    assert_eq!(map.get("GBP"), Some(900_000_000));
}

#[test]
fn store_rates_replaces_the_whole_map() {
    let mut store = rates(&[("USD", 1_100_000_000), ("GBP", 900_000_000)]);
    store_rates(&mut store, rates(&[("CHF", 950_000_000)]));
    assert_eq!(store.len(), 1);
    assert_eq!(store.get("CHF"), Some(950_000_000));
    assert_eq!(store.get("USD"), None);
    assert_eq!(store.get("GBP"), None);
}

#[test]
fn a_cycle_starts_with_a_request() {
    let mut store = RateMap::new();
    assert_eq!(
        update_rates(&mut store, PollState::Idle, PollEvent::Woke),
        (PollState::Fetching { retries: 0 }, PollAction::Fetch)
    );
    assert_eq!(
        update_rates(&mut store, PollState::Published { retries: 1 }, PollEvent::Woke),
        (PollState::Fetching { retries: 0 }, PollAction::Fetch)
    );
    assert_eq!(
        update_rates(&mut store, PollState::Retrying { retries: 2 }, PollEvent::Woke),
        (PollState::Fetching { retries: 2 }, PollAction::Fetch)
    );
}

#[test]
fn a_successful_request_stores_the_rates_and_sleeps_long() {
    let mut store = rates(&[("USD", 1_000_000_000)]);
    let next = update_rates(
        &mut store,
        PollState::Fetching { retries: 0 },
        PollEvent::Fetched(rates(&[("GBP", 800_000_000)])),
    );
    assert_eq!(next, (PollState::Published { retries: 0 }, PollAction::Sleep(259200)));
    assert_eq!(store.get("GBP"), Some(800_000_000));
    assert_eq!(store.get("USD"), None);
}

#[test]
fn a_failed_request_is_retried_after_a_short_sleep() {
    let mut store = rates(&[("USD", 1_000_000_000)]);
    assert_eq!(
        update_rates(&mut store, PollState::Fetching { retries: 0 }, PollEvent::Failed),
        (PollState::Retrying { retries: 1 }, PollAction::Sleep(60))
    );
    assert_eq!(
        update_rates(&mut store, PollState::Fetching { retries: 1 }, PollEvent::Failed),
        (PollState::Retrying { retries: 2 }, PollAction::Sleep(60))
    );
    assert_eq!(
        update_rates(&mut store, PollState::Fetching { retries: 2 }, PollEvent::Failed),
        (PollState::Idle, PollAction::Sleep(259200))
    );
    assert_eq!(store.get("USD"), Some(1_000_000_000));
    assert_eq!(store.len(), 1);
}

#[test]
fn an_event_that_does_not_belong_is_ignored() {
    let mut store = rates(&[("USD", 1_000_000_000)]);
    assert_eq!(
        update_rates(&mut store, PollState::Idle, PollEvent::Fetched(rates(&[("GBP", 1_000)]))),
        (PollState::Idle, PollAction::Ignore)
    );
    assert_eq!(
        update_rates(&mut store, PollState::Retrying { retries: 1 }, PollEvent::Failed),
        (PollState::Retrying { retries: 1 }, PollAction::Ignore)
    );
    assert_eq!(
        update_rates(&mut store, PollState::Fetching { retries: 1 }, PollEvent::Woke),
        (PollState::Fetching { retries: 1 }, PollAction::Ignore)
    );
    assert_eq!(store.get("USD"), Some(1_000_000_000));
    assert_eq!(store.get("GBP"), None);
}

/// Runs one cycle against a provider that fails `failures` times and then
/// succeeds; returns the state at the end, the requests made and the seconds
/// slept before the long sleep.
fn run_cycle(store: &mut RateMap, failures: u32) -> (PollState, u32, u64) {
    let mut state = PollState::Idle;
    let mut event = PollEvent::Woke;
    let mut requests = 0;
    let mut slept = 0;
    loop {
        let (next, action) = update_rates(store, state, event);
        state = next;
        match action {
            PollAction::Fetch => {
                requests += 1;
                event = if requests <= failures {
                    PollEvent::Failed
                } else {
                    PollEvent::Fetched(rates(&[("NEW", 1_500_000_000)]))
                };
            }
            PollAction::Sleep(seconds) => {
                if seconds == POLL_RATE_SECONDS {
                    return (state, requests, slept);
                }
                slept += seconds;
                event = PollEvent::Woke;
            }
            PollAction::Ignore => panic!("the cycle lost its way"),
        }
    }
}

#[test]
fn a_cycle_publishes_when_the_failures_are_within_the_limit() {
    for failures in 0..=RETRY_POLL_ATTEMPTS_LIMIT as u32 {
        let mut store = rates(&[("OLD", 1_000_000_000)]);
        let (state, requests, slept) = run_cycle(&mut store, failures);
        assert_eq!(state, PollState::Published { retries: failures as u16 });
        assert_eq!(requests, failures + 1);
        assert_eq!(slept, failures as u64 * RETRY_POLL_SECONDS);
        assert_eq!(store.get("NEW"), Some(1_500_000_000));
        assert_eq!(store.get("OLD"), None);
    }
}

#[test]
fn a_cycle_is_given_up_beyond_the_limit_and_keeps_the_old_rates() {
    for failures in 3..6 {
        let mut store = rates(&[("OLD", 1_000_000_000)]);
        let (state, requests, slept) = run_cycle(&mut store, failures);
        assert_eq!(state, PollState::Idle);
        assert_eq!(requests, 3);
        assert_eq!(slept, 120);
        assert_eq!(store.get("OLD"), Some(1_000_000_000));
        assert_eq!(store.get("NEW"), None);
    }
}

#[test]
fn fixer_request_asks_for_the_latest_rates_with_the_key() {
    let fixer = ConfigExchangeFixer {
        endpoint: "https://api.apilayer.com/fixer".to_string(),
        api_key: "k-123".to_string(),
    };
    let request = fixer_request(&fixer, "EUR");
    assert_eq!(request.url, "https://api.apilayer.com/fixer/latest?base=EUR");
    assert_eq!(request.api_key, Some("k-123".to_string()));
}

#[test]
fn currency_api_request_names_the_currency_in_lower_case() {
    let api = ConfigExchangeCurrencyAPI { endpoint: "https://rates.example/v1".to_string() };
    let request = currency_api_request(&api, "EUR");
    assert_eq!(request.url, "https://rates.example/v1/currencies/eur.min.json");
    assert_eq!(request.api_key, None);
}

#[test]
fn the_first_provider_that_is_set_up_is_asked() {
    let both = ConfigExchange {
        fixer: Some(ConfigExchangeFixer { endpoint: "f".to_string(), api_key: "k".to_string() }),
        currency_api: Some(ConfigExchangeCurrencyAPI { endpoint: "c".to_string() }),
    };
    let request = rates_request(&both, "USD").unwrap();
    assert_eq!(request.url, "f/latest?base=USD");
    assert_eq!(request.api_key, Some("k".to_string()));

    let second = ConfigExchange {
        fixer: None,
        currency_api: Some(ConfigExchangeCurrencyAPI { endpoint: "c".to_string() }),
    };
    let request = rates_request(&second, "USD").unwrap();
    assert_eq!(request.url, "c/currencies/usd.min.json");
    assert_eq!(request.api_key, None);

    let none = ConfigExchange { fixer: None, currency_api: None };
    assert!(rates_request(&none, "USD").is_none());
}

fn fixer_body(leaves: Vec<RateLeaf>) -> Option<Vec<DocumentEntry>> {
    Some(vec![
        DocumentEntry { key: "success".to_string(), value: DocumentValue::Other },
        DocumentEntry { key: "rates".to_string(), value: DocumentValue::Object(leaves) },
    ])
}

#[test]
fn fixer_answer_gives_every_rate() {
    let body = fixer_body(vec![leaf("USD", Some(1_100_000_000)), leaf("GBP", Some(850_000_000))]);
    let map = get_rates_from_fixer(200, &body).unwrap();
    assert_eq!(map.len(), 2);
    assert_eq!(map.get("USD"), Some(1_100_000_000));
    assert_eq!(map.get("GBP"), Some(850_000_000));
}

#[test]
fn fixer_answer_is_refused_as_a_whole() {
    let mixed = fixer_body(vec![leaf("USD", Some(1_100_000_000)), leaf("GBP", None)]);
    assert!(get_rates_from_fixer(200, &mixed).is_err());
    let good = fixer_body(vec![leaf("USD", Some(1_100_000_000))]);
    assert!(get_rates_from_fixer(500, &good).is_err());
    assert!(get_rates_from_fixer(404, &good).is_err());
    assert!(get_rates_from_fixer(200, &None).is_err());
    let no_rates =
        Some(vec![DocumentEntry { key: "success".to_string(), value: DocumentValue::Other }]);
    assert!(get_rates_from_fixer(200, &no_rates).is_err());
    let no_object =
        Some(vec![DocumentEntry { key: "rates".to_string(), value: DocumentValue::Other }]);
    assert!(get_rates_from_fixer(200, &no_object).is_err());
}

#[test]
fn the_answer_is_read_as_that_of_the_provider_that_was_asked() {
    let body = Some(vec![
        DocumentEntry {
            key: "rates".to_string(),
            value: DocumentValue::Object(vec![leaf("USD", Some(1_100_000_000))]),
        },
        DocumentEntry {
            key: "eur".to_string(),
            value: DocumentValue::Object(vec![leaf("usd", Some(1_200_000_000))]),
        },
    ]);
    let first = ConfigExchange {
        fixer: Some(ConfigExchangeFixer { endpoint: "f".to_string(), api_key: "k".to_string() }),
        currency_api: Some(ConfigExchangeCurrencyAPI { endpoint: "c".to_string() }),
    };
    let map = get_rates(&first, 200, &body, "EUR").unwrap();
    assert_eq!(map.get("USD"), Some(1_100_000_000));
    assert_eq!(map.len(), 1);

    let second = ConfigExchange {
        fixer: None,
        currency_api: Some(ConfigExchangeCurrencyAPI { endpoint: "c".to_string() }),
    };
    let map = get_rates(&second, 200, &body, "EUR").unwrap();
    assert_eq!(map.get("USD"), Some(1_200_000_000));
    assert_eq!(map.get("usd"), None);
    assert!(get_rates(&second, 500, &body, "EUR").is_err());

    let none = ConfigExchange { fixer: None, currency_api: None };
    assert!(get_rates(&none, 200, &body, "EUR").is_err());
}

#[test]
fn currency_api_answer_gives_the_numbers_under_the_base() {
    let document = Some(vec![
        DocumentEntry { key: "date".to_string(), value: DocumentValue::Other },
        DocumentEntry {
            key: "eur".to_string(),
            value: DocumentValue::Object(vec![
                leaf("usd", Some(1_100_000_000)),
                leaf("note", None),
                leaf("gbp", Some(850_000_000)),
                leaf("usd", Some(1_200_000_000)),
            ]),
        },
    ]);
    let map = get_rates_from_currency_api(200, &document, "EUR").unwrap();
    assert_eq!(map.len(), 2);
    assert_eq!(map.get("USD"), Some(1_200_000_000));
    assert_eq!(map.get("GBP"), Some(850_000_000));
    assert_eq!(map.get("usd"), None);
    assert_eq!(map.get("gbp"), None);
    assert_eq!(map.get("NOTE"), None);
    assert_eq!(normalize(&map, "EUR", 120_000_000, "USD"), Ok(100_000_000));
}

#[test]
fn currency_api_answer_is_keyed_in_upper_case() {
    let document = Some(vec![DocumentEntry {
        key: "eur".to_string(),
        value: DocumentValue::Object(vec![leaf("usd", Some(1_250_000_000))]),
    }]);
    let map = get_rates_from_currency_api(200, &document, "EUR").unwrap();
    assert_eq!(map.len(), 1);
    assert_eq!(map.get("USD"), Some(1_250_000_000));
    assert_eq!(map.get("usd"), None);
}

#[test]
fn fixer_answer_in_mixed_case_is_keyed_in_upper_case() {
    let body = fixer_body(vec![leaf("Usd", Some(1_100_000_000)), leaf("USD", Some(1_300_000_000))]);
    let map = get_rates_from_fixer(200, &body).unwrap();
    assert_eq!(map.len(), 1);
    assert_eq!(map.get("USD"), Some(1_300_000_000));
}

#[test]
fn currency_api_answer_without_an_object_is_a_failure() {
    let document =
        Some(vec![DocumentEntry { key: "eur".to_string(), value: DocumentValue::Other }]);
    assert!(get_rates_from_currency_api(200, &document, "EUR").is_err());
    assert!(get_rates_from_document(200, &document, "eur").is_err());
    let later_object = Some(vec![
        DocumentEntry { key: "eur".to_string(), value: DocumentValue::Other },
        DocumentEntry {
            key: "eur".to_string(),
            value: DocumentValue::Object(vec![leaf("usd", Some(1_100_000_000))]),
        },
    ]);
    assert!(get_rates_from_document(200, &later_object, "eur").is_err());
}

#[test]
fn a_failed_answer_leaves_the_stored_rates_alone() {
    let second = ConfigExchange {
        fixer: None,
        currency_api: Some(ConfigExchangeCurrencyAPI { endpoint: "c".to_string() }),
    };
    let broken =
        Some(vec![DocumentEntry { key: "eur".to_string(), value: DocumentValue::Other }]);
    let mut store = rates(&[("USD", 1_000_000_000)]);
    let event = match get_rates(&second, 200, &broken, "EUR") {
        Ok(fetched) => PollEvent::Fetched(fetched),
        Err(()) => PollEvent::Failed,
    };
    let next = update_rates(&mut store, PollState::Fetching { retries: 0 }, event);
    assert_eq!(next, (PollState::Retrying { retries: 1 }, PollAction::Sleep(60)));
    assert_eq!(store.len(), 1);
    assert_eq!(store.get("USD"), Some(1_000_000_000));
}

#[test]
fn currency_api_answer_fails_without_the_base() {
    let document = Some(vec![DocumentEntry {
        key: "usd".to_string(),
        value: DocumentValue::Object(vec![leaf("eur", Some(900_000_000))]),
    }]);
    assert!(get_rates_from_currency_api(200, &document, "EUR").is_err());
    assert!(get_rates_from_currency_api(200, &None, "EUR").is_err());
    let good = Some(vec![DocumentEntry {
        key: "eur".to_string(),
        value: DocumentValue::Object(vec![leaf("usd", Some(1_100_000_000))]),
    }]);
    assert!(get_rates_from_currency_api(503, &good, "EUR").is_err());
}

#[test]
fn document_request_takes_the_name_as_it_is() {
    let api = ConfigExchangeCurrencyAPI { endpoint: "https://rates.example/v1".to_string() };
    let request = currency_api_document_request(&api, "chf");
    assert_eq!(request.url, "https://rates.example/v1/currencies/chf.min.json");
    assert_eq!(request.api_key, None);
}

#[test]
fn document_gives_the_rates_under_the_first_member_of_that_name() {
    let document = Some(vec![
        DocumentEntry {
            key: "eur".to_string(),
            value: DocumentValue::Object(vec![leaf("usd", Some(1_100_000_000))]),
        },
        DocumentEntry {
            key: "eur".to_string(),
            value: DocumentValue::Object(vec![leaf("usd", Some(9_900_000_000))]),
        },
    ]);
    let map = get_rates_from_document(200, &document, "eur").unwrap();
    assert_eq!(map.len(), 1);
    assert_eq!(map.get("USD"), Some(1_100_000_000));
    assert!(get_rates_from_document(200, &document, "EUR").is_err());
    assert!(get_rates_from_document(201, &document, "eur").is_err());
}
