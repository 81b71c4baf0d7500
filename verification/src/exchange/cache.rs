//! The stored rates behind a reader-writer lock: one writer replaces the map
//! as a whole, and every reader works on one whole map.

use crate::exchange::manager::{
    next_action, next_state, normalize, normalized, update_rates, PollAction, PollEvent, PollState,
    RateMap,
};
use crate::track::payment::{amount_result, payment_amount, payment_amount_of, HandlePaymentError};
use vstd::prelude::*;
use vstd::rwlock::RwLock;

verus! {

/// The rates in force, shared between the refresh cycle and the handlers.
///
/// A reader holds the lock for the whole of one conversion, and the writer
/// puts a new map in place only while no reader does. So a conversion is
/// always computed from one map as it was stored, never from parts of two.
///
/// A cache can be made for a chosen set of maps. Only those can be stored in
/// it, and every reader then works on one of them.
pub struct RateCache {
    lock: RwLock<RateMap, spec_fn(RateMap) -> bool>,
    allowed: Ghost<spec_fn(Map<Seq<char>, i64>) -> bool>,
}

/// `result` is the exec form of the conversion `expected`.
pub open spec fn converts_as(result: Result<i128, ()>, expected: Option<int>) -> bool {
    match expected {
        Some(amount) => result == Ok::<i128, ()>(amount as i128) && amount as i128 == amount,
        None => result is Err,
    }
}

impl RateCache {
    #[verifier::type_invariant]
    spec fn lock_takes_allowed(self) -> bool {
        forall|rates: RateMap| #[trigger] self.lock.inv(rates) == (self.allowed@)(rates@)
    }

    /// Whether `rates` may be stored in this cache.
    pub closed spec fn allows(&self, rates: Map<Seq<char>, i64>) -> bool {
        (self.allowed@)(rates)
    }

    /// A cache without any rate, in which any map may be stored.
    pub fn new() -> (cache: RateCache)
        ensures
            forall|rates: Map<Seq<char>, i64>| cache.allows(rates),
    {
        let rates = RateMap::new();
        let ghost allowed = |rates: Map<Seq<char>, i64>| true;
        RateCache {
            lock: RwLock::new(rates, Ghost(|rates: RateMap| allowed(rates@))),
            allowed: Ghost(allowed),
        }
    }

    /// A cache that holds `initial` and in which only the maps that `allowed`
    /// accepts may be stored.
    pub fn restricted(
        initial: RateMap,
        Ghost(allowed): Ghost<spec_fn(Map<Seq<char>, i64>) -> bool>,
    ) -> (cache: RateCache)
        requires
            allowed(initial@),
        ensures
            forall|rates: Map<Seq<char>, i64>| cache.allows(rates) == allowed(rates),
    {
        RateCache {
            lock: RwLock::new(initial, Ghost(|rates: RateMap| allowed(rates@))),
            allowed: Ghost(allowed),
        }
    }

    /// Replaces the stored rates by `rates` as a whole. What readers find
    /// afterwards is this map, until the next one is put in its place.
    pub fn publish(&self, rates: RateMap)
        requires
            self.allows(rates@),
    {
        proof {
            use_type_invariant(self);
        }
        let (_, handle) = self.lock.acquire_write();
        handle.release_write(rates);
    }

    /// Converts `amount`, given in `currency`, into the payout currency under
    /// the rates in force: the conversion under one whole map that may be
    /// stored in this cache. An amount in the payout currency comes back
    /// unchanged.
    pub fn convert(&self, payout_currency: &str, amount: i64, currency: &str) -> (result: Result<
        i128,
        (),
    >)
        ensures
            exists|rates: Map<Seq<char>, i64>|
                self.allows(rates) && converts_as(
                    result,
                    #[trigger] normalized(rates, payout_currency@, amount as int, currency@),
                ),
            currency@ == payout_currency@ ==> result == Ok::<i128, ()>(amount as i128),
    {
        proof {
            use_type_invariant(self);
        }
        let handle = self.lock.acquire_read();
        let result = normalize(handle.borrow(), payout_currency, amount, currency);
        proof {
            let rates = handle.view()@;
            assert(self.allows(rates));
            assert(converts_as(
                result,
                normalized(rates, payout_currency@, amount as int, currency@),
            ));
        }
        handle.release_read();
        result
    }

    /// The first step of a payment under the rates in force: what
    /// `payment_amount` gives under one whole stored map.
    pub fn payment_amount(
        &self,
        payout_currency: &str,
        amount_real: i64,
        currency: &str,
    ) -> (result: Result<Option<i128>, HandlePaymentError>)
        ensures
            exists|rates: Map<Seq<char>, i64>|
                self.allows(rates) && amount_result(
                    result,
                    #[trigger] payment_amount_of(
                        rates,
                        payout_currency@,
                        amount_real as int,
                        currency@,
                    ),
                ),
    {
        proof {
            use_type_invariant(self);
        }
        let handle = self.lock.acquire_read();
        let result = payment_amount(handle.borrow(), payout_currency, amount_real, currency);
        proof {
            let rates = handle.view()@;
            assert(self.allows(rates));
            assert(amount_result(
                result,
                payment_amount_of(rates, payout_currency@, amount_real as int, currency@),
            ));
        }
        handle.release_read();
        result
    }

    /// One step of the refresh cycle on the shared rates: as `update_rates`,
    /// with the map replaced under the write lock.
    pub fn update_rates(&self, state: PollState, event: PollEvent) -> (next: (
        PollState,
        PollAction,
    ))
        requires
            event is Fetched ==> self.allows(event.fetched()),
        ensures
            next.0 == next_state(state, event.signal()),
            next.1 == next_action(state, event.signal()),
    {
        proof {
            use_type_invariant(self);
        }
        let (mut rates, handle) = self.lock.acquire_write();
        let next = update_rates(&mut rates, state, event);
        handle.release_write(rates);
        next
    }
}

/// Where only the maps in `published` may be stored in a cache, whatever a
/// reader gets from `convert` is the conversion under one of them, taken as a
/// whole: no conversion ever comes from a map that was not published.
pub proof fn lemma_conversion_under_a_published_map(
    cache: RateCache,
    published: Set<Map<Seq<char>, i64>>,
    result: Result<i128, ()>,
    payout_currency: Seq<char>,
    amount: int,
    currency: Seq<char>,
)
    requires
        forall|rates: Map<Seq<char>, i64>| cache.allows(rates) ==> published.contains(rates),
        exists|rates: Map<Seq<char>, i64>|
            cache.allows(rates) && converts_as(
                result,
                #[trigger] normalized(rates, payout_currency, amount, currency),
            ),
    ensures
        exists|rates: Map<Seq<char>, i64>|
            published.contains(rates) && converts_as(
                result,
                #[trigger] normalized(rates, payout_currency, amount, currency),
            ),
{
    let rates = choose|rates: Map<Seq<char>, i64>|
        cache.allows(rates) && converts_as(
            result,
            #[trigger] normalized(rates, payout_currency, amount, currency),
        );
    assert(published.contains(rates));
}

} // verus!
