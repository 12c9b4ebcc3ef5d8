//! Snapshots of the account, put together from the answers of the exchange.
use vstd::prelude::*;
use crate::arch::action_gateway;
use crate::binary64::Binary64;
use crate::constants;
use crate::constants::ZERO;
use crate::decimal;
use crate::decimal::read;
use crate::text;
use crate::text::{numbered, owned, parse_u64, same};
use super::state::{AccountOpenOrder, AccountState, duplicate_text};
use super::utils;
use super::utils::power_of_ten;

verus! {

/// An open order, as the exchange lists it.
#[derive(Debug)]
pub struct ListedOrder {
    pub order_id: String,
    pub cli_order_id: Option<String>,
    pub price: Binary64,
    pub size: Binary64,
    pub executed_size: Binary64,
}

/// A position, as the exchange lists it.
#[derive(Debug)]
pub struct ListedPosition {
    pub inst: String,
    pub size: Binary64,
}

/// A balance, as the exchange lists it.
#[derive(Debug)]
pub struct ListedBalance {
    pub asset: String,
    pub total: Binary64,
    pub available: Binary64,
}

/// The use of the rate limit.
#[derive(Clone, Copy, Debug, PartialEq, Eq, Structural)]
pub struct RateUse {
    pub used: u64,
    pub cap: u64,
    pub surplus: u64,
}

/// The fee rates, as the exchange writes them.
#[derive(Debug)]
pub struct FeeRates {
    pub add_rate: String,
    pub cross_rate: String,
}

/// A coin, as the exchange lists it.
#[derive(Debug)]
pub struct ListedCoin {
    pub name: String,
    pub size_decimals: u32,
    pub growth_mode: Option<String>,
    pub deployer_fee_scale: Option<String>,
}

/// The answers that only a full snapshot asks for. An error holds its message.
#[derive(Debug)]
pub struct FullAnswers {
    pub balances: Result<Vec<ListedBalance>, String>,
    pub rate_limit: Result<RateUse, String>,
    pub fees: Result<FeeRates, String>,
    pub metadata: Result<Vec<ListedCoin>, String>,
}

/// The answers to one request for a snapshot. An error holds its message.
#[derive(Debug)]
pub struct AccountAnswers {
    pub orders: Result<Vec<ListedOrder>, String>,
    pub positions: Result<Vec<ListedPosition>, String>,
    /// Present in a full snapshot.
    pub full: Option<FullAnswers>,
}

/// Of the listed orders those whose ids are numbers.
pub open spec fn known_orders(orders: Seq<ListedOrder>) -> Seq<AccountOpenOrder>
    decreases orders.len(),
{
    if orders.len() == 0 {
        Seq::empty()
    } else {
        let order = orders.last();
        match text::whole(order.order_id@) {
            Some(oid) => known_orders(orders.drop_last()).push(
                AccountOpenOrder {
                    oid,
                    cloid: order.cli_order_id,
                    price: order.price,
                    size: order.size,
                    executed_size: order.executed_size,
                },
            ),
            None => known_orders(orders.drop_last()),
        }
    }
}

/// The size of the first position in the instrument, zero where there is none.
pub open spec fn position_in(positions: Seq<ListedPosition>, instrument: Seq<char>) -> Binary64
    decreases positions.len(),
{
    if positions.len() == 0 {
        constants::number(ZERO)
    } else if positions[0].inst@ == instrument {
        positions[0].size
    } else {
        position_in(positions.skip(1), instrument)
    }
}

/// The first balance in the asset.
pub open spec fn balance_in(balances: Seq<ListedBalance>, asset: Seq<char>) -> Option<ListedBalance>
    decreases balances.len(),
{
    if balances.len() == 0 {
        None
    } else if balances[0].asset@ == asset {
        Some(balances[0])
    } else {
        balance_in(balances.skip(1), asset)
    }
}

/// The first coin with the name.
pub open spec fn coin_named(coins: Seq<ListedCoin>, name: Seq<char>) -> Option<ListedCoin>
    decreases coins.len(),
{
    if coins.len() == 0 {
        None
    } else if coins[0].name@ == name {
        Some(coins[0])
    } else {
        coin_named(coins.skip(1), name)
    }
}

/// The lot size that size decimals stand for. Decimals beyond the range of `i32`
/// wrap around.
pub open spec fn lot_of(size_decimals: u32) -> Binary64 {
    utils::ten_power(
        if size_decimals <= 0x8000_0000 {
            -(size_decimals as int)
        } else {
            0x1_0000_0000 - size_decimals
        },
    )
}

fn lot_size(size_decimals: u32) -> (r: Binary64)
    ensures
        r == lot_of(size_decimals),
{
    let exponent: i64 = if size_decimals <= 0x8000_0000 {
        0 - size_decimals as i64
    } else {
        0x1_0000_0000 - size_decimals as i64
    };
    power_of_ten(exponent as i32)
}

fn orders_with_numbers(orders: &Vec<ListedOrder>) -> (r: Vec<AccountOpenOrder>)
    ensures
        r@ == known_orders(orders@),
{
    let mut out: Vec<AccountOpenOrder> = Vec::new();
    let mut i: usize = 0;
    proof {
        assert(orders@.take(0) =~= Seq::<ListedOrder>::empty());
    }
    while i < orders.len()
        invariant
            i <= orders@.len(),
            out@ == known_orders(orders@.take(i as int)),
        decreases orders@.len() - i,
    {
        proof {
            assert(orders@.take(i as int + 1).drop_last() =~= orders@.take(i as int));
        }
        let order = &orders[i];
        if let Some(oid) = parse_u64(order.order_id.as_str()) {
            out.push(
                AccountOpenOrder {
                    oid,
                    cloid: duplicate_text(&order.cli_order_id),
                    price: order.price,
                    size: order.size,
                    executed_size: order.executed_size,
                },
            );
        }
        i = i + 1;
    }
    proof {
        assert(orders@.take(orders@.len() as int) =~= orders@);
    }
    out
}

fn find_position(positions: &Vec<ListedPosition>, instrument: &str) -> (r: Binary64)
    ensures
        r == position_in(positions@, instrument@),
{
    let mut i: usize = 0;
    proof {
        assert(positions@.skip(0) =~= positions@);
    }
    while i < positions.len()
        invariant
            i <= positions@.len(),
            position_in(positions@, instrument@) == position_in(
                positions@.skip(i as int),
                instrument@,
            ),
        decreases positions@.len() - i,
    {
        if same(positions[i].inst.as_str(), instrument) {
            return positions[i].size;
        }
        proof {
            assert(positions@.skip(i as int).skip(1) =~= positions@.skip(i as int + 1));
        }
        i = i + 1;
    }
    Binary64 { bits: ZERO }
}

fn find_balance<'a>(balances: &'a Vec<ListedBalance>, asset: &str) -> (r: Option<&'a ListedBalance>)
    ensures
        match r {
            Some(balance) => balance_in(balances@, asset@) == Some(*balance),
            None => balance_in(balances@, asset@) is None,
        },
{
    let mut i: usize = 0;
    proof {
        assert(balances@.skip(0) =~= balances@);
    }
    while i < balances.len()
        invariant
            i <= balances@.len(),
            balance_in(balances@, asset@) == balance_in(balances@.skip(i as int), asset@),
        decreases balances@.len() - i,
    {
        if same(balances[i].asset.as_str(), asset) {
            return Some(&balances[i]);
        }
        proof {
            assert(balances@.skip(i as int).skip(1) =~= balances@.skip(i as int + 1));
        }
        i = i + 1;
    }
    None
}

fn find_coin<'a>(coins: &'a Vec<ListedCoin>, name: &str) -> (r: Option<&'a ListedCoin>)
    ensures
        match r {
            Some(coin) => coin_named(coins@, name@) == Some(*coin),
            None => coin_named(coins@, name@) is None,
        },
{
    let mut i: usize = 0;
    proof {
        assert(coins@.skip(0) =~= coins@);
    }
    while i < coins.len()
        invariant
            i <= coins@.len(),
            coin_named(coins@, name@) == coin_named(coins@.skip(i as int), name@),
        decreases coins@.len() - i,
    {
        if same(coins[i].name.as_str(), name) {
            return Some(&coins[i]);
        }
        proof {
            assert(coins@.skip(i as int).skip(1) =~= coins@.skip(i as int + 1));
        }
        i = i + 1;
    }
    None
}

impl FullAnswers {
    /// The balance in the quote currency.
    pub open spec fn balance(self) -> Option<ListedBalance> {
        match self.balances {
            Ok(balances) => balance_in(balances@, "USDC"@),
            Err(_) => None,
        }
    }

    /// The use of the rate limit.
    pub open spec fn rate(self) -> Option<RateUse> {
        match self.rate_limit {
            Ok(rate) => Some(rate),
            Err(_) => None,
        }
    }

    /// The fee rate of orders that add liquidity.
    pub open spec fn maker(self) -> Option<Binary64> {
        match self.fees {
            Ok(fees) => decimal::reading(fees.add_rate@),
            Err(_) => None,
        }
    }

    /// The fee rate of orders that take liquidity.
    pub open spec fn taker(self) -> Option<Binary64> {
        match self.fees {
            Ok(fees) => decimal::reading(fees.cross_rate@),
            Err(_) => None,
        }
    }

    /// The traded coin.
    pub open spec fn coin(self, name: Seq<char>) -> Option<ListedCoin> {
        match self.metadata {
            Ok(coins) => coin_named(coins@, name),
            Err(_) => None,
        }
    }

    /// What went wrong with the balances and the rate limit.
    pub open spec fn money_faults(self) -> Seq<Seq<char>> {
        (match self.balances {
            Ok(_) => Seq::empty(),
            Err(message) => seq!["balances:"@ + message@],
        }) + (match self.rate_limit {
            Ok(_) => Seq::empty(),
            Err(message) => seq!["user_rate_limit:"@ + message@],
        })
    }

    /// What went wrong with the fees and the list of coins.
    pub open spec fn listing_faults(self, coin: Seq<char>) -> Seq<Seq<char>> {
        (match self.fees {
            Ok(_) => Seq::empty(),
            Err(message) => seq!["user_fees:"@ + message@],
        }) + (match self.metadata {
            Ok(_) => if self.coin(coin) is Some {
                Seq::empty()
            } else {
                seq!["metadata:coin_not_found:"@ + coin]
            },
            Err(message) => seq!["metadata:"@ + message@],
        })
    }

    /// What the answers lack.
    pub open spec fn gaps(self) -> Seq<Seq<char>> {
        (if self.balance() is None {
            seq!["balances:USDC_not_found"@]
        } else {
            Seq::empty()
        }) + (if self.maker() is None || self.taker() is None {
            seq!["user_fees:unparseable_rate"@]
        } else {
            Seq::empty()
        })
    }
}

impl AccountAnswers {
    /// What went wrong with the orders and the positions.
    pub open spec fn basic_faults(self) -> Seq<Seq<char>> {
        (match self.orders {
            Ok(_) => Seq::empty(),
            Err(message) => seq!["open_orders:"@ + message@],
        }) + (match self.positions {
            Ok(_) => Seq::empty(),
            Err(message) => seq!["positions:"@ + message@],
        })
    }

    /// Everything that went wrong.
    pub open spec fn faults(self, coin: Seq<char>) -> Seq<Seq<char>> {
        match self.full {
            Some(full) => self.basic_faults() + full.money_faults() + full.listing_faults(coin)
                + full.gaps(),
            None => self.basic_faults(),
        }
    }
}

/// What the full answers tell of the money: what they do not tell is unknown.
pub open spec fn with_money(state: AccountState, full: FullAnswers) -> AccountState {
    AccountState {
        account_value: match full.balance() {
            Some(balance) => Some(balance.total),
            None => None,
        },
        withdrawable: match full.balance() {
            Some(balance) => Some(balance.available),
            None => None,
        },
        requests_used: match full.rate() {
            Some(rate) => Some(rate.used),
            None => None,
        },
        requests_cap: match full.rate() {
            Some(rate) => Some(rate.cap),
            None => None,
        },
        requests_surplus: match full.rate() {
            Some(rate) => Some(rate.surplus),
            None => None,
        },
        ..state
    }
}

/// What the full answers tell of the fees and the coin: what they do not tell is
/// unknown.
pub open spec fn with_listing(state: AccountState, full: FullAnswers, coin: Seq<char>) -> AccountState {
    AccountState {
        maker_fee: full.maker(),
        taker_fee: full.taker(),
        lot_size: match full.coin(coin) {
            Some(listed) => Some(lot_of(listed.size_decimals)),
            None => None,
        },
        size_decimals: match full.coin(coin) {
            Some(listed) => Some(listed.size_decimals),
            None => None,
        },
        growth_mode: match full.coin(coin) {
            Some(listed) => listed.growth_mode,
            None => None,
        },
        deployer_fee_scale: match full.coin(coin) {
            Some(listed) => listed.deployer_fee_scale,
            None => None,
        },
        ..state
    }
}

/// The state that follows from the answers: what was answered is new, and what a
/// smaller snapshot does not ask for is kept. It is healthy where nothing went
/// wrong.
pub open spec fn is_merged(
    state: AccountState,
    cached: AccountState,
    answers: AccountAnswers,
    started_ns: u64,
    instrument: Seq<char>,
    coin: Seq<char>,
) -> bool {
    let basic = AccountState {
        snapshot_monotonic_ns: started_ns,
        rest_snapshot_healthy: answers.faults(coin).len() == 0,
        confirmed_inventory: match answers.positions {
            Ok(positions) => position_in(positions@, instrument),
            Err(_) => cached.confirmed_inventory,
        },
        open_order_count: match answers.orders {
            Ok(orders) => orders@.len() as usize,
            Err(_) => cached.open_order_count,
        },
        open_orders: state.open_orders,
        ..cached
    };
    &&& state == (match answers.full {
        Some(full) => with_listing(with_money(basic, full), full, coin),
        None => basic,
    })
    &&& state.open_orders@ == (match answers.orders {
        Ok(orders) => known_orders(orders@),
        Err(_) => cached.open_orders@,
    })
}

fn push_fault(errors: &mut Vec<String>, prefix: &str, message: &str)
    ensures
        text::characters_of(final(errors)@) == text::characters_of(old(errors)@).push(prefix@ + message@),
{
    let ghost before = errors@;
    errors.push(owned(prefix).concat(message));
    proof {
        assert(text::characters_of(errors@) =~= text::characters_of(before).push(prefix@ + message@));
    }
}

fn merge_money(state: &mut AccountState, errors: &mut Vec<String>, full: &FullAnswers)
    ensures
        *final(state) == with_money(*old(state), *full),
        text::characters_of(final(errors)@) == text::characters_of(old(errors)@) + full.money_faults(),
{
    let ghost before = text::characters_of(errors@);
    state.account_value = None;
    state.withdrawable = None;
    state.requests_used = None;
    state.requests_cap = None;
    state.requests_surplus = None;
    match &full.balances {
        Ok(balances) => {
            if let Some(balance) = find_balance(balances, "USDC") {
                state.account_value = Some(balance.total);
                state.withdrawable = Some(balance.available);
            }
        },
        Err(message) => {
            push_fault(errors, "balances:", message.as_str());
        },
    }
    match &full.rate_limit {
        Ok(rate) => {
            state.requests_used = Some(rate.used);
            state.requests_cap = Some(rate.cap);
            state.requests_surplus = Some(rate.surplus);
        },
        Err(message) => {
            push_fault(errors, "user_rate_limit:", message.as_str());
        },
    }
    proof {
        assert(text::characters_of(errors@) =~= before + full.money_faults());
    }
}

fn merge_listing(state: &mut AccountState, errors: &mut Vec<String>, full: &FullAnswers, coin: &str)
    ensures
        *final(state) == with_listing(*old(state), *full, coin@),
        text::characters_of(final(errors)@) == text::characters_of(old(errors)@) + full.listing_faults(coin@),
{
    let ghost before = text::characters_of(errors@);
    state.maker_fee = None;
    state.taker_fee = None;
    state.lot_size = None;
    state.size_decimals = None;
    state.growth_mode = None;
    state.deployer_fee_scale = None;
    match &full.fees {
        Ok(fees) => {
            state.maker_fee = read(fees.add_rate.as_str());
            state.taker_fee = read(fees.cross_rate.as_str());
        },
        Err(message) => {
            push_fault(errors, "user_fees:", message.as_str());
        },
    }
    match &full.metadata {
        Ok(coins) => match find_coin(coins, coin) {
            Some(listed) => {
                state.lot_size = Some(lot_size(listed.size_decimals));
                state.size_decimals = Some(listed.size_decimals);
                state.growth_mode = duplicate_text(&listed.growth_mode);
                state.deployer_fee_scale = duplicate_text(&listed.deployer_fee_scale);
            },
            None => {
                push_fault(errors, "metadata:coin_not_found:", coin);
            },
        },
        Err(message) => {
            push_fault(errors, "metadata:", message.as_str());
        },
    }
    proof {
        assert(text::characters_of(errors@) =~= before + full.listing_faults(coin@));
    }
}

/// The state that follows from the answers, and what went wrong.
pub fn merge_account(
    cached: &AccountState,
    answers: &AccountAnswers,
    started_ns: u64,
    instrument: &str,
    coin: &str,
) -> (r: (AccountState, Vec<String>))
    ensures
        is_merged(r.0, *cached, *answers, started_ns, instrument@, coin@),
        text::characters_of(r.1@) == answers.faults(coin@),
{
    let mut state = cached.duplicate();
    let mut errors: Vec<String> = Vec::new();
    state.snapshot_monotonic_ns = started_ns;
    match &answers.orders {
        Ok(orders) => {
            state.open_order_count = orders.len();
            state.open_orders = orders_with_numbers(orders);
        },
        Err(message) => {
            push_fault(&mut errors, "open_orders:", message.as_str());
        },
    }
    match &answers.positions {
        Ok(positions) => {
            state.confirmed_inventory = find_position(positions, instrument);
        },
        Err(message) => {
            push_fault(&mut errors, "positions:", message.as_str());
        },
    }
    proof {
        assert(text::characters_of(errors@) =~= answers.basic_faults());
    }
    if let Some(full) = &answers.full {
        merge_money(&mut state, &mut errors, full);
        merge_listing(&mut state, &mut errors, full, coin);
        let ghost so_far = text::characters_of(errors@);
        proof {
            reveal_strlit("");
        }
        if state.withdrawable.is_none() {
            push_fault(&mut errors, "balances:USDC_not_found", "");
        }
        if state.maker_fee.is_none() || state.taker_fee.is_none() {
            push_fault(&mut errors, "user_fees:unparseable_rate", "");
        }
        proof {
            assert("balances:USDC_not_found"@ + ""@ =~= "balances:USDC_not_found"@);
            assert("user_fees:unparseable_rate"@ + ""@ =~= "user_fees:unparseable_rate"@);
            assert(text::characters_of(errors@) =~= so_far + full.gaps());
        }
    }
    proof {
        assert(text::characters_of(errors@) =~= answers.faults(coin@));
    }
    state.rest_snapshot_healthy = errors.len() == 0;
    (state, errors)
}

/// What the collector of snapshots remembers.
#[derive(Debug)]
pub struct AccountCollector {
    /// The last healthy state.
    pub cached: AccountState,
    pub sequence: u64,
}

/// A snapshot of the account.
#[derive(Debug)]
pub struct AccountSnapshot {
    pub state: AccountState,
    pub errors: Vec<String>,
    pub event_id: String,
}

impl AccountCollector {
    pub fn new() -> (r: AccountCollector)
        ensures
            r.cached.is_blank(),
            r.sequence == 0,
    {
        AccountCollector { cached: AccountState::default(), sequence: 0 }
    }

    /// `after` follows when answers were taken in and gave a snapshot. Only a healthy
    /// state is remembered.
    pub open spec fn has_taken_in(
        self,
        after: AccountCollector,
        snapshot: AccountSnapshot,
        answers: AccountAnswers,
        started_ns: u64,
        instrument: Seq<char>,
        coin: Seq<char>,
    ) -> bool {
        &&& is_merged(snapshot.state, self.cached, answers, started_ns, instrument, coin)
        &&& text::characters_of(snapshot.errors@) == answers.faults(coin)
        &&& snapshot.event_id@ == "rest-"@ + text::digits(after.sequence as nat)
        &&& after.sequence == action_gateway::successor(self.sequence)
        &&& if snapshot.state.rest_snapshot_healthy {
            after.cached.is_like(snapshot.state)
        } else {
            after.cached == self.cached
        }
    }

    /// Takes the answers to one request in. Only a healthy state is remembered.
    pub fn take_in(
        &mut self,
        answers: &AccountAnswers,
        started_ns: u64,
        instrument: &str,
        coin: &str,
    ) -> (r: AccountSnapshot)
        ensures
            old(self).has_taken_in(
                *final(self),
                r,
                *answers,
                started_ns,
                instrument@,
                coin@,
            ),
    {
        let (state, errors) = merge_account(&self.cached, answers, started_ns, instrument, coin);
        if state.rest_snapshot_healthy {
            self.cached = state.duplicate();
        }
        self.sequence = self.sequence.saturating_add(1);
        let event_id = numbered("rest-", self.sequence);
        AccountSnapshot { state, errors, event_id }
    }
}

/// A full snapshot is healthy only where every answer came, the balance and both
/// fee rates were read, and the coin is listed.
pub proof fn law_healthy_snapshots_are_complete(
    state: AccountState,
    cached: AccountState,
    answers: AccountAnswers,
    started_ns: u64,
    instrument: Seq<char>,
    coin: Seq<char>,
)
    requires
        is_merged(state, cached, answers, started_ns, instrument, coin),
        answers.full is Some,
        state.rest_snapshot_healthy,
    ensures
        answers.orders is Ok,
        answers.positions is Ok,
        state.account_value is Some,
        state.withdrawable is Some,
        state.requests_used is Some,
        state.requests_cap is Some,
        state.maker_fee is Some,
        state.taker_fee is Some,
        state.lot_size is Some,
        state.size_decimals is Some,
{
}

} // verus!
