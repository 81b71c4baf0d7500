//! Commission accrual for payments and the signup counter of a tracker.
//!
//! The ledger store is read and written by the caller. Each handler here takes
//! what the store returned and decides what is written next.

use crate::exchange::manager::{normalize, normalized, RateMap, AMOUNT_SCALE};
use crate::storage::models::{Account, Tracker};
use crate::text::same_text;
use chrono::offset::Utc;
use vstd::prelude::*;
use vstd::string::*;

verus! {

#[derive(Clone, Copy, Debug, PartialEq, Eq, Structural)]
pub enum HandlePaymentError {
    InvalidAmount,
    BadCurrency,
    NotFound,
}

#[derive(Clone, Copy, Debug, PartialEq, Eq, Structural)]
pub enum HandleSignupError {
    NotFound,
}

/// The ledger row of one commission, before the store has given it an
/// identifier.
pub struct BalanceInsert {
    pub amount: i128,
    pub currency: String,
    pub trace: Option<String>,
    pub account_id: i32,
    pub tracker_id: String,
    pub created_at: i64,
    pub updated_at: i64,
}

/// A payment that earns commission: the row to insert, and whom to tell once
/// it is stored.
pub struct PaymentPlan {
    pub entry: BalanceInsert,
    pub notify_balance: bool,
    pub email: String,
}

/// The new counter and time of a tracker that saw a signup.
pub struct TrackerUpdate {
    pub id: String,
    pub statistics_signups: i32,
    pub updated_at: i64,
}

/// The tracker is the one named `tracking_id`, and `account` owns it.
pub open spec fn resolves(tracker: Tracker, account: Account, tracking_id: Seq<char>) -> bool {
    tracker.id@ == tracking_id && tracker.account_id == account.id
}

/// The commission on `amount` at the rate `commission`, both in millionths,
/// rounded down.
pub open spec fn commission_on(amount: int, commission: int) -> int {
    (amount * commission) / (AMOUNT_SCALE as int)
}

/// At a commission rate of at most one, the commission on an amount is
/// neither below zero nor above the amount; at the rate of one it is the
/// whole amount, and at the rate of zero it is nothing.
pub proof fn lemma_commission_within_amount(amount: int, commission: int)
    requires
        0 <= amount,
        0 <= commission <= AMOUNT_SCALE,
    ensures
        0 <= commission_on(amount, commission) <= amount,
        commission_on(amount, AMOUNT_SCALE as int) == amount,
        commission_on(amount, 0) == 0,
{
    let scale = AMOUNT_SCALE as int;
    assert(0 <= amount * commission <= amount * scale) by (nonlinear_arith)
        requires
            0 <= amount,
            0 <= commission <= scale,
    ;
    assert(amount * 0 == 0);
}

/// The text of an optional trace.
pub open spec fn trace_text(trace: Option<String>) -> Option<Seq<char>> {
    match trace {
        Some(text) => Some(text@),
        None => None,
    }
}

/// `plan` credits `amount` to `account` for `tracker`, in the payout currency
/// and at the time `now`, and carries `trace` and the account's notification
/// settings.
pub open spec fn credits(
    plan: PaymentPlan,
    tracker: Tracker,
    account: Account,
    payout_currency: Seq<char>,
    trace: Option<String>,
    amount: int,
    now: i64,
) -> bool {
    &&& plan.entry.amount == amount
    &&& plan.entry.currency@ == payout_currency
    &&& trace_text(plan.entry.trace) == trace_text(trace)
    &&& plan.entry.account_id == account.id
    &&& plan.entry.tracker_id@ == tracker.id@
    &&& plan.entry.created_at == now
    &&& plan.entry.updated_at == now
    &&& plan.notify_balance == account.notify_balance
    &&& plan.email@ == account.email@
}

/// The largest converted amount: the largest amount that can be reported,
/// under the smallest rate.
pub const PAYOUT_AMOUNT_LIMIT: i128 = 9_223_372_036_854_775_808_000_000_000;

/// What the amount of a payment comes to in the payout currency:
/// - `Err(BadCurrency)` where it cannot be converted;
/// - `Err(InvalidAmount)` where the converted amount is negative;
/// - `Ok(None)` where it is zero;
/// - else `Ok(Some(amount))`.
pub open spec fn payment_amount_of(
    rates: Map<Seq<char>, i64>,
    payout_currency: Seq<char>,
    amount_real: int,
    currency: Seq<char>,
) -> Result<Option<int>, HandlePaymentError> {
    match normalized(rates, payout_currency, amount_real, currency) {
        None => Err(HandlePaymentError::BadCurrency),
        Some(amount) => if amount < 0 {
            Err(HandlePaymentError::InvalidAmount)
        } else if amount == 0 {
            Ok(None)
        } else {
            Ok(Some(amount))
        },
    }
}

/// `result` is the exec form of `expected`.
pub open spec fn amount_result(
    result: Result<Option<i128>, HandlePaymentError>,
    expected: Result<Option<int>, HandlePaymentError>,
) -> bool {
    match expected {
        Err(error) => result == Err::<Option<i128>, HandlePaymentError>(error),
        Ok(None) => result == Ok::<Option<i128>, HandlePaymentError>(None),
        Ok(Some(amount)) => {
            &&& 0 < amount <= PAYOUT_AMOUNT_LIMIT
            &&& result == Ok::<Option<i128>, HandlePaymentError>(Some(amount as i128))
        },
    }
}

/// What a payment whose converted amount is `amount`, above zero, adds to the
/// ledger:
/// - `Err(NotFound)` where `resolved` does not hold the tracker named
///   `tracking_id` together with the account that owns it;
/// - `Ok(None)` where the commission is not above zero;
/// - else `Ok(Some(plan))` with the one ledger row to insert.
pub open spec fn plan_result(
    result: Result<Option<PaymentPlan>, HandlePaymentError>,
    amount: int,
    resolved: Option<(Tracker, Account)>,
    tracking_id: Seq<char>,
    payout_currency: Seq<char>,
    trace: Option<String>,
    now: i64,
) -> bool {
    match resolved {
        Some((tracker, account)) => if !resolves(tracker, account, tracking_id) {
            result == Err::<Option<PaymentPlan>, HandlePaymentError>(HandlePaymentError::NotFound)
        } else if commission_on(amount, account.commission as int) <= 0 {
            result == Ok::<Option<PaymentPlan>, HandlePaymentError>(None)
        } else {
            &&& result is Ok
            &&& result->Ok_0 is Some
            &&& credits(
                result->Ok_0->Some_0,
                tracker,
                account,
                payout_currency,
                trace,
                commission_on(amount, account.commission as int),
                now,
            )
        },
        None => result == Err::<Option<PaymentPlan>, HandlePaymentError>(
            HandlePaymentError::NotFound,
        ),
    }
}

/// What a payment comes to, before anything is written: the error or the
/// nothing that its amount comes to, else what its converted amount adds to
/// the ledger.
pub open spec fn payment_result(
    result: Result<Option<PaymentPlan>, HandlePaymentError>,
    rates: Map<Seq<char>, i64>,
    payout_currency: Seq<char>,
    resolved: Option<(Tracker, Account)>,
    tracking_id: Seq<char>,
    amount_real: int,
    currency: Seq<char>,
    trace: Option<String>,
    now: i64,
) -> bool {
    match payment_amount_of(rates, payout_currency, amount_real, currency) {
        Err(error) => result == Err::<Option<PaymentPlan>, HandlePaymentError>(error),
        Ok(None) => result == Ok::<Option<PaymentPlan>, HandlePaymentError>(None),
        Ok(Some(amount)) => plan_result(
            result,
            amount,
            resolved,
            tracking_id,
            payout_currency,
            trace,
            now,
        ),
    }
}

/// The first step of a payment: converts the amount and tells whether the
/// store has to be asked at all.
pub fn payment_amount(
    rates: &RateMap,
    payout_currency: &str,
    amount_real: i64,
    currency: &str,
) -> (result: Result<Option<i128>, HandlePaymentError>)
    ensures
        amount_result(
            result,
            payment_amount_of(rates@, payout_currency@, amount_real as int, currency@),
        ),
{
    match normalize(rates, payout_currency, amount_real, currency) {
        Ok(amount) => {
            if amount < 0 {
                Err(HandlePaymentError::InvalidAmount)
            } else if amount == 0 {
                Ok(None)
            } else {
                Ok(Some(amount))
            }
        },
        Err(_) => Err(HandlePaymentError::BadCurrency),
    }
}

/// The second step of a payment: given the converted amount and what the
/// store found for `tracking_id`, the ledger row to insert, if any.
pub fn payment_plan(
    amount: i128,
    resolved: &Option<(Tracker, Account)>,
    tracking_id: &str,
    payout_currency: &str,
    trace: &Option<String>,
    now: i64,
) -> (result: Result<Option<PaymentPlan>, HandlePaymentError>)
    requires
        0 < amount <= PAYOUT_AMOUNT_LIMIT,
    ensures
        plan_result(
            result,
            amount as int,
            *resolved,
            tracking_id@,
            payout_currency@,
            *trace,
            now,
        ),
{
    match resolved {
        Some((tracker, account)) => {
            if !same_text(tracker.id.as_str(), tracking_id) || tracker.account_id != account.id {
                return Err(HandlePaymentError::NotFound);
            }
            assert(amount * account.commission <= 0x2000_0000_0000_0000_0000_0000_0000_0000)
                by (nonlinear_arith)
                requires
                    0 < amount <= 0x2000_0000_0000_0000_0000_0000,
                    0 <= account.commission <= 0xffff_ffff,
            ;
            let product: u128 = (amount as u128) * (account.commission as u128);
            let commission_amount: u128 = product / (AMOUNT_SCALE as u128);
            if commission_amount > 0 {
                let entry = BalanceInsert {
                    amount: commission_amount as i128,
                    currency: payout_currency.to_owned(),
                    trace: match trace {
                        Some(text) => Some(text.clone()),
                        None => None,
                    },
                    account_id: account.id,
                    tracker_id: tracker.id.clone(),
                    created_at: now,
                    updated_at: now,
                };
                Ok(
                    Some(
                        PaymentPlan {
                            entry,
                            notify_balance: account.notify_balance,
                            email: account.email.clone(),
                        },
                    ),
                )
            } else {
                Ok(None)
            }
        },
        None => Err(HandlePaymentError::NotFound),
    }
}

/// Reads the clock with `Utc::now` of the chrono crate and gives the time as
/// seconds since the Unix epoch. Nothing is claimed of the value. The call
/// does not return where the system clock stands before the epoch.
#[verifier::external_body]
fn current_timestamp() -> (now: i64) {
    Utc::now().timestamp()
}

/// The second step of a payment, at the time that the clock shows: what
/// `payment_plan` decides for that time.
pub fn payment_plan_now(
    amount: i128,
    resolved: &Option<(Tracker, Account)>,
    tracking_id: &str,
    payout_currency: &str,
    trace: &Option<String>,
) -> (result: Result<Option<PaymentPlan>, HandlePaymentError>)
    requires
        0 < amount <= PAYOUT_AMOUNT_LIMIT,
    ensures
        exists|now: i64| #[trigger]
            plan_result(
                result,
                amount as int,
                *resolved,
                tracking_id@,
                payout_currency@,
                *trace,
                now,
            ),
{
    let now = current_timestamp();
    payment_plan(amount, resolved, tracking_id, payout_currency, trace, now)
}

/// Decides what a payment of `amount_real` in `currency`, reported for the
/// tracker `tracking_id`, adds to the ledger. `resolved` is what the store
/// found for `tracking_id`: the tracker and the account that owns it.
///
/// In order: a payment that cannot be converted is `Err(BadCurrency)`; one
/// whose converted amount is negative is `Err(InvalidAmount)`; one of zero is
/// `Ok(None)`; one whose tracker and owner were not found is `Err(NotFound)`;
/// one whose commission is not above zero is `Ok(None)`; any other is
/// `Ok(Some(plan))` with the one ledger row to insert.
pub fn handle_payment(
    rates: &RateMap,
    payout_currency: &str,
    resolved: &Option<(Tracker, Account)>,
    tracking_id: &str,
    amount_real: i64,
    currency: &str,
    trace: &Option<String>,
    now: i64,
) -> (result: Result<Option<PaymentPlan>, HandlePaymentError>)
    ensures
        payment_result(
            result,
            rates@,
            payout_currency@,
            *resolved,
            tracking_id@,
            amount_real as int,
            currency@,
            *trace,
            now,
        ),
{
    match payment_amount(rates, payout_currency, amount_real, currency) {
        Ok(Some(amount)) => payment_plan(
            amount,
            resolved,
            tracking_id,
            payout_currency,
            trace,
            now,
        ),
        Ok(None) => Ok(None),
        Err(error) => Err(error),
    }
}

/// What the caller of the payment handler gets once the store has answered
/// the insert: the account's notification setting and address, the tracker,
/// the commission and its currency where the row was stored, and `NotFound`
/// where it was not.
pub fn confirm_payment(plan: PaymentPlan, inserted: bool) -> (result: Result<
    Option<(bool, String, String, i128, String)>,
    HandlePaymentError,
>)
    ensures
        inserted ==> result == Ok::<
            Option<(bool, String, String, i128, String)>,
            HandlePaymentError,
        >(
            Some(
                (
                    plan.notify_balance,
                    plan.email,
                    plan.entry.tracker_id,
                    plan.entry.amount,
                    plan.entry.currency,
                ),
            ),
        ),
        !inserted ==> result == Err::<
            Option<(bool, String, String, i128, String)>,
            HandlePaymentError,
        >(HandlePaymentError::NotFound),
{
    if inserted {
        Ok(
            Some(
                (
                    plan.notify_balance,
                    plan.email,
                    plan.entry.tracker_id,
                    plan.entry.amount,
                    plan.entry.currency,
                ),
            ),
        )
    } else {
        Err(HandlePaymentError::NotFound)
    }
}

/// A payment whose converted amount is zero does nothing: it is no error and
/// it adds no ledger row, whatever the store holds.
pub proof fn lemma_zero_amount_adds_nothing(
    result: Result<Option<PaymentPlan>, HandlePaymentError>,
    rates: Map<Seq<char>, i64>,
    payout_currency: Seq<char>,
    resolved: Option<(Tracker, Account)>,
    tracking_id: Seq<char>,
    amount_real: int,
    currency: Seq<char>,
    trace: Option<String>,
    now: i64,
)
    requires
        payment_result(
            result,
            rates,
            payout_currency,
            resolved,
            tracking_id,
            amount_real,
            currency,
            trace,
            now,
        ),
        normalized(rates, payout_currency, amount_real, currency) == Some(0int),
    ensures
        result == Ok::<Option<PaymentPlan>, HandlePaymentError>(None),
{
}

/// An account whose commission rate is zero never gets a ledger row, however
/// large the payment.
pub proof fn lemma_zero_commission_adds_nothing(
    result: Result<Option<PaymentPlan>, HandlePaymentError>,
    rates: Map<Seq<char>, i64>,
    payout_currency: Seq<char>,
    tracker: Tracker,
    account: Account,
    tracking_id: Seq<char>,
    amount_real: int,
    currency: Seq<char>,
    trace: Option<String>,
    now: i64,
)
    requires
        payment_result(
            result,
            rates,
            payout_currency,
            Some((tracker, account)),
            tracking_id,
            amount_real,
            currency,
            trace,
            now,
        ),
        account.commission == 0,
    ensures
        !(result is Ok && result->Ok_0 is Some),
        normalized(rates, payout_currency, amount_real, currency) is Some && normalized(
            rates,
            payout_currency,
            amount_real,
            currency,
        )->Some_0 > 0 && resolves(tracker, account, tracking_id) ==> result == Ok::<
            Option<PaymentPlan>,
            HandlePaymentError,
        >(None),
{
    assert(forall|amount: int| commission_on(amount, 0) == 0) by {
        assert forall|amount: int| commission_on(amount, 0) == 0 by {
            assert(amount * 0 == 0);
        }
    }
}

/// A payment for a tracker that the store does not know adds no ledger row,
/// and where its converted amount is above zero the answer is `NotFound`.
pub proof fn lemma_unknown_tracker_adds_nothing(
    result: Result<Option<PaymentPlan>, HandlePaymentError>,
    rates: Map<Seq<char>, i64>,
    payout_currency: Seq<char>,
    tracking_id: Seq<char>,
    amount_real: int,
    currency: Seq<char>,
    trace: Option<String>,
    now: i64,
)
    requires
        payment_result(
            result,
            rates,
            payout_currency,
            None,
            tracking_id,
            amount_real,
            currency,
            trace,
            now,
        ),
    ensures
        !(result is Ok && result->Ok_0 is Some),
        normalized(rates, payout_currency, amount_real, currency) is Some && normalized(
            rates,
            payout_currency,
            amount_real,
            currency,
        )->Some_0 > 0 ==> result == Err::<Option<PaymentPlan>, HandlePaymentError>(
            HandlePaymentError::NotFound,
        ),
{
}

/// Every ledger row that a payment plans is above zero and belongs to the
/// account that owns the tracker it names.
pub proof fn lemma_entry_belongs_to_owner(
    result: Result<Option<PaymentPlan>, HandlePaymentError>,
    rates: Map<Seq<char>, i64>,
    payout_currency: Seq<char>,
    tracker: Tracker,
    account: Account,
    tracking_id: Seq<char>,
    amount_real: int,
    currency: Seq<char>,
    trace: Option<String>,
    now: i64,
)
    requires
        payment_result(
            result,
            rates,
            payout_currency,
            Some((tracker, account)),
            tracking_id,
            amount_real,
            currency,
            trace,
            now,
        ),
        result is Ok,
        result->Ok_0 is Some,
    ensures
        result->Ok_0->Some_0.entry.amount > 0,
        result->Ok_0->Some_0.entry.tracker_id@ == tracking_id,
        result->Ok_0->Some_0.entry.account_id == tracker.account_id,
{
}

/// The counter after one more signup: one above `signups`, and `signups`
/// itself where it is the largest number that a counter can hold. A counter
/// never goes down.
pub open spec fn counted(signups: i32) -> i32 {
    if signups < i32::MAX {
        (signups + 1) as i32
    } else {
        signups
    }
}

/// What a signup on the tracker named `tracking_id` writes: the tracker's
/// counter, counted up, and the time `now`, where `resolved` holds that
/// tracker; `NotFound` where the store found none.
pub open spec fn signup_result(
    result: Result<TrackerUpdate, HandleSignupError>,
    resolved: Option<Tracker>,
    tracking_id: Seq<char>,
    now: i64,
) -> bool {
    match resolved {
        Some(tracker) => if tracker.id@ == tracking_id {
            &&& result is Ok
            &&& result->Ok_0.id@ == tracker.id@
            &&& result->Ok_0.statistics_signups == counted(tracker.statistics_signups)
            &&& result->Ok_0.updated_at == now
        } else {
            result == Err::<TrackerUpdate, HandleSignupError>(HandleSignupError::NotFound)
        },
        None => result == Err::<TrackerUpdate, HandleSignupError>(HandleSignupError::NotFound),
    }
}

/// Decides what a signup on the tracker named `tracking_id` writes, given what
/// the store found for it.
///
/// The new counter is computed from the counter that was read. The store has
/// to apply it as an increment of its own, or let no other signup read the
/// row in between: see `lemma_signups_from_one_read_count_once`. A counter
/// that cannot grow any more stays as it is.
pub fn handle_signup(resolved: &Option<Tracker>, tracking_id: &str, now: i64) -> (result: Result<
    TrackerUpdate,
    HandleSignupError,
>)
    ensures
        signup_result(result, *resolved, tracking_id@, now),
{
    match resolved {
        Some(tracker) => {
            if same_text(tracker.id.as_str(), tracking_id) {
                let signups: i32 = if tracker.statistics_signups < i32::MAX {
                    tracker.statistics_signups + 1
                } else {
                    tracker.statistics_signups
                };
                Ok(
                    TrackerUpdate {
                        id: tracker.id.clone(),
                        statistics_signups: signups,
                        updated_at: now,
                    },
                )
            } else {
                Err(HandleSignupError::NotFound)
            }
        },
        None => Err(HandleSignupError::NotFound),
    }
}

/// Decides on a signup at the time that the clock shows: what `handle_signup`
/// decides for that time.
pub fn handle_signup_now(resolved: &Option<Tracker>, tracking_id: &str) -> (result: Result<
    TrackerUpdate,
    HandleSignupError,
>)
    ensures
        exists|now: i64| #[trigger] signup_result(result, *resolved, tracking_id@, now),
{
    let now = current_timestamp();
    handle_signup(resolved, tracking_id, now)
}

/// The row of `tracker` once the store has written `update` to it: the
/// counter and the time of the update, and everything else as it was.
pub open spec fn updated(tracker: Tracker, update: TrackerUpdate) -> Tracker {
    Tracker {
        id: tracker.id,
        label: tracker.label,
        statistics_signups: update.statistics_signups,
        account_id: tracker.account_id,
        created_at: tracker.created_at,
        updated_at: update.updated_at,
    }
}

/// A signup on a tracker that the store holds succeeds, and once its update
/// is written the row has the counter counted up, never below what it was,
/// and the time of the signup in place of the earlier one. The time of
/// creation, the label and the owner stay.
pub proof fn lemma_signup_counts_and_stamps(
    result: Result<TrackerUpdate, HandleSignupError>,
    tracker: Tracker,
    now: i64,
)
    requires
        signup_result(result, Some(tracker), tracker.id@, now),
    ensures
        result is Ok,
        result->Ok_0.id@ == tracker.id@,
        updated(tracker, result->Ok_0).statistics_signups == counted(tracker.statistics_signups),
        updated(tracker, result->Ok_0).statistics_signups >= tracker.statistics_signups,
        tracker.statistics_signups < i32::MAX ==> updated(
            tracker,
            result->Ok_0,
        ).statistics_signups == tracker.statistics_signups + 1,
        updated(tracker, result->Ok_0).updated_at == now,
        updated(tracker, result->Ok_0).created_at == tracker.created_at,
        updated(tracker, result->Ok_0).label == tracker.label,
        updated(tracker, result->Ok_0).account_id == tracker.account_id,
{
}

/// Two signups that were decided from the same read of a tracker write the
/// same counter: the row ends one above the read, not two, and one signup is
/// lost.
pub proof fn lemma_signups_from_one_read_count_once(
    first: Result<TrackerUpdate, HandleSignupError>,
    second: Result<TrackerUpdate, HandleSignupError>,
    tracker: Tracker,
    first_time: i64,
    second_time: i64,
)
    requires
        signup_result(first, Some(tracker), tracker.id@, first_time),
        signup_result(second, Some(tracker), tracker.id@, second_time),
    ensures
        first is Ok,
        second is Ok,
        first->Ok_0.statistics_signups == second->Ok_0.statistics_signups,
        updated(updated(tracker, first->Ok_0), second->Ok_0).statistics_signups == counted(
            tracker.statistics_signups,
        ),
        tracker.statistics_signups < i32::MAX ==> updated(
            updated(tracker, first->Ok_0),
            second->Ok_0,
        ).statistics_signups == tracker.statistics_signups + 1,
{
}

/// What one signup does to the row of a tracker, step by step.
pub enum SignupStep {
    /// A signup reads the counter; its write is still to come.
    Read,
    /// The signup whose read is the one at this place among those still to
    /// write stores the counter that it decided on.
    Write(nat),
    /// The store itself counts one signup, in one step.
    Increment,
}

/// The counter of a tracker while signups are under way: the stored counter,
/// the counters read by the signups that have not written yet, and the number
/// of signups that are done.
pub struct SignupRun {
    pub counter: i32,
    pub pending: Seq<i32>,
    pub done: nat,
}

/// The run that starts at the stored counter `counter`.
pub open spec fn signup_start(counter: i32) -> SignupRun {
    SignupRun { counter, pending: Seq::empty(), done: 0 }
}

/// The run after one more step. A write stores what `handle_signup` decides
/// for the counter that its signup read, whatever is stored by then. A write
/// for a read that is not there changes nothing.
pub open spec fn signup_step(run: SignupRun, step: SignupStep) -> SignupRun {
    match step {
        SignupStep::Read => SignupRun {
            counter: run.counter,
            pending: run.pending.push(run.counter),
            done: run.done,
        },
        SignupStep::Write(place) => if place < run.pending.len() {
            SignupRun {
                counter: counted(run.pending[place as int]),
                pending: run.pending.remove(place as int),
                done: run.done + 1,
            }
        } else {
            run
        },
        SignupStep::Increment => SignupRun {
            counter: counted(run.counter),
            pending: run.pending,
            done: run.done + 1,
        },
    }
}

/// The run after `steps`, taken in order.
pub open spec fn signup_run(start: SignupRun, steps: Seq<SignupStep>) -> SignupRun
    decreases steps.len(),
{
    if steps.len() == 0 {
        start
    } else {
        signup_step(signup_run(start, steps.drop_last()), steps.last())
    }
}

/// `signups` signups, each reading and writing before the next one reads.
pub open spec fn signups_in_turn(signups: nat) -> Seq<SignupStep>
    decreases signups,
{
    if signups == 0 {
        Seq::empty()
    } else {
        signups_in_turn((signups - 1) as nat).push(SignupStep::Read).push(SignupStep::Write(0))
    }
}

/// The counter `counter` after `signups` signups that were all counted: so
/// many above it, and no more than a counter can hold.
pub open spec fn counted_times(counter: i32, signups: nat) -> i32 {
    if counter + signups <= i32::MAX {
        (counter + signups) as i32
    } else {
        i32::MAX
    }
}

/// However the reads and writes of signups fall among each other, the stored
/// counter never counts more signups than are done and never falls below
/// where it started; once one signup is done it is above the start. So
/// overlapping signups can lose counts and cannot make any up.
pub proof fn lemma_signups_never_overcount(counter: i32, steps: Seq<SignupStep>)
    ensures
        ({
            let end = signup_run(signup_start(counter), steps);
            &&& counter <= end.counter <= counter + end.done
            &&& end.done >= 1 ==> end.counter >= counted(counter)
            &&& forall|i: int|
                0 <= i < end.pending.len() ==> counter <= #[trigger] end.pending[i] <= counter
                    + end.done
        }),
    decreases steps.len(),
{
    if steps.len() > 0 {
        lemma_signups_never_overcount(counter, steps.drop_last());
        let before = signup_run(signup_start(counter), steps.drop_last());
        let end = signup_step(before, steps.last());
        assert(end == signup_run(signup_start(counter), steps));
        match steps.last() {
            SignupStep::Read => {
                assert forall|i: int| 0 <= i < end.pending.len() implies counter
                    <= #[trigger] end.pending[i] <= counter + end.done by {
                    if i < before.pending.len() {
                        assert(end.pending[i] == before.pending[i]);
                    }
                }
            },
            SignupStep::Write(place) => {
                if place < before.pending.len() {
                    assert(counter <= before.pending[place as int] <= counter + before.done);
                    assert forall|i: int| 0 <= i < end.pending.len() implies counter
                        <= #[trigger] end.pending[i] <= counter + end.done by {
                        if i < place {
                            assert(end.pending[i] == before.pending[i]);
                        } else {
                            assert(end.pending[i] == before.pending[i + 1]);
                        }
                    }
                }
            },
            SignupStep::Increment => {},
        }
    }
}

/// Two signups that both read before either writes are both done, and the
/// counter has counted one of them only.
pub proof fn lemma_overlapping_signups_lose_one(counter: i32)
    ensures
        signup_run(
            signup_start(counter),
            seq![SignupStep::Read, SignupStep::Read, SignupStep::Write(0), SignupStep::Write(0)],
        ) == (SignupRun { counter: counted(counter), pending: Seq::empty(), done: 2 }),
{
    let first = seq![SignupStep::Read];
    let second = first.push(SignupStep::Read);
    let third = second.push(SignupStep::Write(0));
    let fourth = third.push(SignupStep::Write(0));
    assert(fourth == seq![
        SignupStep::Read,
        SignupStep::Read,
        SignupStep::Write(0),
        SignupStep::Write(0),
    ]);
    assert(first.drop_last() == Seq::<SignupStep>::empty());
    assert(second.drop_last() == first);
    assert(third.drop_last() == second);
    assert(fourth.drop_last() == third);
    let start = signup_start(counter);
    let one = signup_run(start, first);
    assert(signup_run(start, first.drop_last()) == start);
    assert(one == signup_step(start, SignupStep::Read));
    assert(one.pending == seq![counter]);
    let two = signup_run(start, second);
    assert(two == signup_step(one, SignupStep::Read));
    assert(two.pending == seq![counter, counter]);
    let three = signup_run(start, third);
    assert(three == signup_step(two, SignupStep::Write(0)));
    assert(three.pending == seq![counter]);
    let four = signup_run(start, fourth);
    assert(four == signup_step(three, SignupStep::Write(0)));
    assert(four.pending == Seq::<i32>::empty());
}

/// Signups that do not overlap are all counted: after `signups` of them, each
/// reading and writing before the next one reads, the counter stands so many
/// above its start.
pub proof fn lemma_signups_in_turn_count_all(counter: i32, signups: nat)
    ensures
        signup_run(signup_start(counter), signups_in_turn(signups)) == (SignupRun {
            counter: counted_times(counter, signups),
            pending: Seq::empty(),
            done: signups,
        }),
    decreases signups,
{
    if signups > 0 {
        let earlier = signups_in_turn((signups - 1) as nat);
        lemma_signups_in_turn_count_all(counter, (signups - 1) as nat);
        let read = earlier.push(SignupStep::Read);
        let all = read.push(SignupStep::Write(0));
        assert(read.drop_last() == earlier);
        assert(all.drop_last() == read);
        let before = signup_run(signup_start(counter), earlier);
        let between = signup_run(signup_start(counter), read);
        assert(between == signup_step(before, SignupStep::Read));
        assert(between.pending == seq![before.counter]);
        assert(between.pending.remove(0) == Seq::<i32>::empty());
        assert(signup_run(signup_start(counter), all) == signup_step(
            between,
            SignupStep::Write(0),
        ));
    }
}

/// Every step is an increment by the store itself.
pub open spec fn all_increments(steps: Seq<SignupStep>) -> bool {
    forall|i: int| 0 <= i < steps.len() ==> #[trigger] steps[i] is Increment
}

/// Where the store counts each signup in one step of its own, every signup is
/// counted, in whatever order they arrive.
pub proof fn lemma_increments_count_all(counter: i32, steps: Seq<SignupStep>)
    requires
        all_increments(steps),
    ensures
        signup_run(signup_start(counter), steps) == (SignupRun {
            counter: counted_times(counter, steps.len()),
            pending: Seq::empty(),
            done: steps.len(),
        }),
    decreases steps.len(),
{
    if steps.len() > 0 {
        assert(all_increments(steps.drop_last())) by {
            assert forall|i: int| 0 <= i < steps.drop_last().len() implies (
            #[trigger] steps.drop_last()[i]) is Increment by {
                assert(steps.drop_last()[i] == steps[i]);
            }
        }
        lemma_increments_count_all(counter, steps.drop_last());
        assert(steps.last() == steps[steps.len() - 1]);
    }
}

/// The answer to a signup once the store has answered the update: done where
/// the row was written, `NotFound` where it was not.
pub fn confirm_signup(updated: bool) -> (result: Result<(), HandleSignupError>)
    ensures
        updated ==> result == Ok::<(), HandleSignupError>(()),
        !updated ==> result == Err::<(), HandleSignupError>(HandleSignupError::NotFound),
{
    if updated {
        Ok(())
    } else {
        Err(HandleSignupError::NotFound)
    }
}

/// The text that tells an account owner of a commission.
pub open spec fn notify_payment_text(
    source_tracker_id: Seq<char>,
    commission_amount: Seq<char>,
    commission_currency: Seq<char>,
) -> Seq<char> {
    "Hi,\n\n"@ + "You just received commission money of "@ + commission_currency + " "@
        + commission_amount + " on your affiliates account balance.\n"@
        + "This commission was generated by your tracker with ID: "@ + source_tracker_id
        + "\n\n"@
        + "You can request for a payout anytime on your dashboard (payouts are not automatic)."@
}

/// The subject line of that message.
pub fn notify_payment_subject() -> (subject: String)
    ensures
        subject@ == "You received commission money"@,
{
    "You received commission money".to_owned()
}

/// Writes the message that tells an account owner of a commission.
/// `commission_amount` is the amount as it is to be shown.
pub fn notify_payment_message(
    source_tracker_id: &str,
    commission_amount: &str,
    commission_currency: &str,
) -> (message: String)
    ensures
        message@ == notify_payment_text(
            source_tracker_id@,
            commission_amount@,
            commission_currency@,
        ),
{
    let mut message = "Hi,\n\n".to_owned();
    message.append("You just received commission money of ");
    message.append(commission_currency);
    message.append(" ");
    message.append(commission_amount);
    message.append(" on your affiliates account balance.\n");
    message.append("This commission was generated by your tracker with ID: ");
    message.append(source_tracker_id);
    message.append("\n\n");
    message.append(
        "You can request for a payout anytime on your dashboard (payouts are not automatic).",
    );
    message
}

} // verus!
