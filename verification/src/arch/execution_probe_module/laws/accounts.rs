//! What answers about the account are merged for.
use vstd::prelude::*;
use crate::decimal;
use crate::text;
use super::super::account;
use super::super::account::{
    AccountAnswers, AccountCollector, AccountSnapshot, FullAnswers, ListedBalance, ListedCoin, ListedOrder, ListedPosition,
};
use super::super::state::AccountState;

verus! {

/// The inventory is the first listed position in the instrument, nothing where none
/// is listed in it.
pub proof fn law_positions_are_found_by_instrument(
    first: ListedPosition,
    rest: Seq<ListedPosition>,
    instrument: Seq<char>,
)
    ensures
        ({
            let all = seq![first] + rest;
            &&& account::position_in(Seq::empty(), instrument).value() == 0
            &&& first.inst@ == instrument ==> account::position_in(all, instrument) == first.size
            &&& first.inst@ != instrument ==> account::position_in(all, instrument)
                == account::position_in(rest, instrument)
        }),
{
    crate::ordering::lemma_zero_value();
    assert((seq![first] + rest).skip(1) =~= rest);
}

/// A balance is found by its asset and a coin by its name, the first one where there
/// are several.
pub proof fn law_listings_are_found_by_name(
    balance: ListedBalance,
    balances: Seq<ListedBalance>,
    coin: ListedCoin,
    coins: Seq<ListedCoin>,
    name: Seq<char>,
)
    ensures
        account::balance_in(Seq::empty(), name) is None,
        balance.asset@ == name ==> account::balance_in(seq![balance] + balances, name) == Some(
            balance,
        ),
        balance.asset@ != name ==> account::balance_in(seq![balance] + balances, name)
            == account::balance_in(balances, name),
        account::coin_named(Seq::empty(), name) is None,
        coin.name@ == name ==> account::coin_named(seq![coin] + coins, name) == Some(coin),
        coin.name@ != name ==> account::coin_named(seq![coin] + coins, name)
            == account::coin_named(coins, name),
{
    assert((seq![balance] + balances).skip(1) =~= balances);
    assert((seq![coin] + coins).skip(1) =~= coins);
}

/// Orders are known by their numbers, in the order in which they are listed; those
/// whose ids are no numbers are left out.
pub proof fn law_orders_are_known_by_number(orders: Seq<ListedOrder>, last: ListedOrder)
    ensures
        ({
            let all = account::known_orders(orders.push(last));
            let oid = text::whole(last.order_id@);
            &&& account::known_orders(Seq::empty()).len() == 0
            &&& oid is None ==> all == account::known_orders(orders)
            &&& oid is Some ==> {
                &&& all.len() == account::known_orders(orders).len() + 1
                &&& all.drop_last() =~= account::known_orders(orders)
                &&& all.last().oid == oid->0
                &&& all.last().cloid == last.cli_order_id
                &&& all.last().price == last.price
                &&& all.last().size == last.size
                &&& all.last().executed_size == last.executed_size
            }
        }),
{
    assert(orders.push(last).drop_last() =~= orders);
}

/// What was answered is new and what was not is kept: the time is that of the
/// request, orders and positions come from their answers, and all orders count, also
/// those without a number. A small snapshot keeps money, fees and the coin.
pub proof fn law_snapshots_keep_what_was_not_asked(
    state: AccountState,
    cached: AccountState,
    answers: AccountAnswers,
    started_ns: u64,
    instrument: Seq<char>,
    coin: Seq<char>,
)
    requires
        account::is_merged(state, cached, answers, started_ns, instrument, coin),
    ensures
        state.snapshot_monotonic_ns == started_ns,
        answers.positions is Ok ==> state.confirmed_inventory == account::position_in(
            answers.positions->Ok_0@,
            instrument,
        ),
        answers.positions is Err ==> state.confirmed_inventory == cached.confirmed_inventory
            && !state.rest_snapshot_healthy,
        answers.orders is Ok ==> state.open_order_count == answers.orders->Ok_0@.len() as usize
            && state.open_orders@ == account::known_orders(answers.orders->Ok_0@),
        answers.orders is Err ==> state.open_order_count == cached.open_order_count
            && state.open_orders@ == cached.open_orders@ && !state.rest_snapshot_healthy,
        answers.full is None ==> state.withdrawable == cached.withdrawable && state.account_value
            == cached.account_value && state.requests_cap == cached.requests_cap
            && state.requests_used == cached.requests_used && state.maker_fee == cached.maker_fee
            && state.taker_fee == cached.taker_fee && state.lot_size == cached.lot_size
            && state.size_decimals == cached.size_decimals,
        answers.full is None && answers.orders is Ok && answers.positions is Ok
            ==> state.rest_snapshot_healthy,
{
}

/// A full snapshot takes the money from the balance in USDC, the total as the value
/// and the available part as what can be withdrawn, the rate limit from its answer,
/// the fees of makers and takers from theirs, and the lot from the decimals of the
/// coin.
pub proof fn law_full_snapshots_tell_money_and_fees(
    state: AccountState,
    cached: AccountState,
    answers: AccountAnswers,
    full: FullAnswers,
    started_ns: u64,
    instrument: Seq<char>,
    coin: Seq<char>,
)
    requires
        account::is_merged(state, cached, answers, started_ns, instrument, coin),
        answers.full == Some(full),
    ensures
        full.balances is Ok && account::balance_in(full.balances->Ok_0@, "USDC"@) is Some ==> {
            let balance = account::balance_in(full.balances->Ok_0@, "USDC"@)->0;
            state.account_value == Some(balance.total) && state.withdrawable == Some(
                balance.available,
            )
        },
        full.balances is Err ==> state.account_value is None && state.withdrawable is None
            && !state.rest_snapshot_healthy,
        full.balances is Ok && account::balance_in(full.balances->Ok_0@, "USDC"@) is None
            ==> state.withdrawable is None && !state.rest_snapshot_healthy,
        full.rate_limit is Ok ==> state.requests_used == Some(full.rate_limit->Ok_0.used)
            && state.requests_cap == Some(full.rate_limit->Ok_0.cap) && state.requests_surplus
            == Some(full.rate_limit->Ok_0.surplus),
        full.rate_limit is Err ==> state.requests_used is None && state.requests_cap is None
            && !state.rest_snapshot_healthy,
        full.fees is Ok ==> state.maker_fee == decimal::reading(full.fees->Ok_0.add_rate@)
            && state.taker_fee == decimal::reading(full.fees->Ok_0.cross_rate@),
        full.fees is Err ==> state.maker_fee is None && state.taker_fee is None
            && !state.rest_snapshot_healthy,
        state.maker_fee is None ==> !state.rest_snapshot_healthy,
        state.taker_fee is None ==> !state.rest_snapshot_healthy,
        answers.orders is Err || answers.positions is Err ==> !state.rest_snapshot_healthy,
        answers.orders is Ok && answers.positions is Ok && state.maker_fee is Some
            && state.taker_fee is Some && state.withdrawable is Some && state.requests_used is Some
            && state.lot_size is Some ==> state.rest_snapshot_healthy,
        full.metadata is Ok && account::coin_named(full.metadata->Ok_0@, coin) is Some ==> {
            let listed = account::coin_named(full.metadata->Ok_0@, coin)->0;
            state.size_decimals == Some(listed.size_decimals) && state.lot_size == Some(
                account::lot_of(listed.size_decimals),
            ) && state.growth_mode == listed.growth_mode && state.deployer_fee_scale
                == listed.deployer_fee_scale
        },
        full.metadata is Ok && account::coin_named(full.metadata->Ok_0@, coin) is None
            ==> state.lot_size is None && !state.rest_snapshot_healthy,
        full.metadata is Err ==> state.lot_size is None && !state.rest_snapshot_healthy,
{
    let faults = answers.faults(coin);
    if full.balances is Err {
        assert(full.money_faults().len() > 0);
    }
    if full.rate_limit is Err {
        assert(full.money_faults().len() > 0);
    }
    if full.fees is Err {
        assert(full.listing_faults(coin).len() > 0);
    }
}

/// The budget is what the rate limit leaves, nothing where it is used up; it is
/// unknown where either figure is.
pub proof fn law_budgets_are_what_is_left(state: AccountState)
    ensures
        match (state.requests_cap, state.requests_used) {
            (Some(cap), Some(used)) => state.budget() is Some && state.budget()->0 + (if used
                <= cap {
                used
            } else {
                cap
            }) == cap,
            _ => state.budget() is None,
        },
{
}

/// An inventory is flat where less than half a lot of either side is held.
pub proof fn law_flat_means_less_than_half_a_lot(state: AccountState)
    requires
        state.confirmed_inventory.finite(),
        state.lot().finite(),
    ensures
        ({
            let half = state.lot().product(
                crate::constants::number(crate::constants::HALF),
            ).value();
            let held = state.confirmed_inventory.value();
            &&& state.is_flat() <==> -half < held < half
            &&& state.lot_size is Some ==> state.lot() == state.lot_size->0
            &&& state.lot_size is None ==> state.lot() == crate::binary64::signed(
                false,
                crate::rounding::nearest(vstd::arithmetic::power2::pow2(1074), 10000),
            )
        }),
{
    crate::ordering::lemma_zero_value();
    crate::constants::law_constants_are_exact();
    crate::constants::law_fractions_are_nearest();
    crate::ordering::law_absolute_forgets_the_sign(state.confirmed_inventory);
    crate::ordering::law_signs_multiply(
        state.lot(),
        crate::constants::number(crate::constants::HALF),
    );
}

/// Only a healthy snapshot is built on: after an unhealthy one the next small
/// snapshot keeps what the last healthy one told. What went wrong is told, and
/// nothing did exactly in a healthy one.
pub proof fn law_only_healthy_snapshots_are_built_on(
    before: AccountCollector,
    after: AccountCollector,
    snapshot: AccountSnapshot,
    answers: AccountAnswers,
    started_ns: u64,
    instrument: Seq<char>,
    coin: Seq<char>,
)
    requires
        before.has_taken_in(after, snapshot, answers, started_ns, instrument, coin),
    ensures
        !snapshot.state.rest_snapshot_healthy ==> after.cached == before.cached,
        snapshot.state.rest_snapshot_healthy ==> {
            &&& after.cached.confirmed_inventory == snapshot.state.confirmed_inventory
            &&& after.cached.snapshot_monotonic_ns == snapshot.state.snapshot_monotonic_ns
            &&& after.cached.withdrawable == snapshot.state.withdrawable
            &&& after.cached.lot_size == snapshot.state.lot_size
            &&& after.cached.open_order_count == snapshot.state.open_order_count
            &&& after.cached.open_orders@ == snapshot.state.open_orders@
        },
        snapshot.state.rest_snapshot_healthy <==> snapshot.errors@.len() == 0,
        before.sequence < u64::MAX ==> after.sequence == before.sequence + 1,
        snapshot.event_id@ == "rest-"@ + text::digits(after.sequence as nat),
{
    assert(text::characters_of(snapshot.errors@).len() == snapshot.errors@.len());
}

} // verus!
