//! What a flattening order is for: it brings the inventory back, now.
use vstd::prelude::*;
use vstd::arithmetic::power2::*;
use crate::binary64::Binary64;
use crate::constants;
use crate::constants::TEN_THOUSAND;
use crate::arch::records::Action;
use crate::arch::vocabulary::{Reason, Trigger};
use crate::notation;
use crate::ordering;
use crate::text;
use super::super::base::{ExecutionProbe, ProbeError, Surroundings};
use super::super::flatten::{FlattenNeed, FlattenStep};
use super::super::orders::Dispatch;
use super::super::state::{ProbePhase, ProbeSide};
use super::super::utils;
use super::grid;
use super::market::{is_latest_quote, law_prices_come_from_the_latest_quote};

verus! {

/// The price with which a slippage of up to a hundredth leaves a buy or a sell.
proof fn lemma_slippage(bps: Binary64)
    requires
        bps.finite(),
        0 <= bps.value() <= 100 * pow2(1074),
    ensures
        ({
            let s = bps.quotient(constants::number(TEN_THOUSAND));
            let one = ordering::one();
            &&& s.finite()
            &&& 0 <= s.value()
            &&& 2 * s.value() <= pow2(1074)
            &&& one.sum(s).finite()
            &&& pow2(1074) <= one.sum(s).value() <= 2 * pow2(1074)
            &&& one.difference(s).finite()
            &&& 0 < one.difference(s).value() <= pow2(1074)
        }),
{
    let s = bps.quotient(constants::number(TEN_THOUSAND));
    let one = ordering::one();
    lemma_pow2_pos(1074);
    constants::law_constants_are_exact();
    ordering::lemma_zero_value();
    ordering::lemma_one();
    ordering::law_small_quotients_stay_small(bps, constants::number(TEN_THOUSAND));
    ordering::lemma_below_infinity(s, one);
    ordering::law_sums_of_sizes(one, s);
    ordering::law_sums_stay_within(one, s, constants::number(constants::TWO));
    ordering::lemma_opposite(s);
    ordering::law_sums_stay_within(one, s.opposite(), one);
    ordering::law_differences_compare(s, one);
}

/// A flattening order is marketable. With a slippage between 0 and 100 basis
/// points a buy is not limited below the best ask of the latest quoted book, and
/// a sell not above its best bid.
pub proof fn law_flattening_limits_are_marketable(module: ExecutionProbe)
    requires
        module.market.freshest() is Some,
        module.config.probe.ioc_slippage_bps.finite(),
        0 <= module.config.probe.ioc_slippage_bps.value() <= 100 * pow2(1074),
        !module.account.confirmed_inventory.nan(),
    ensures
        ({
            let book = module.market.book(module.market.freshest()->0);
            let limit = module.flatten_limit();
            &&& is_latest_quote(module.market, book)
            &&& module.account.confirmed_inventory.value() < 0 ==> module.flatten_side()
                == ProbeSide::Bid && book.asks@[0].price.not_above(limit)
            &&& module.account.confirmed_inventory.value() > 0 ==> module.flatten_side()
                == ProbeSide::Ask && limit.not_above(book.bids@[0].price)
        }),
{
    let book = module.market.book(module.market.freshest()->0);
    let bps = module.config.probe.ioc_slippage_bps;
    let one = ordering::one();
    let s = bps.quotient(constants::number(TEN_THOUSAND));
    law_prices_come_from_the_latest_quote(module.market);
    lemma_slippage(bps);
    lemma_pow2_pos(1074);
    ordering::lemma_zero_value();
    ordering::lemma_one();
    if module.account.confirmed_inventory.value() < 0 {
        let best = book.asks@[0].price;
        ordering::law_product_keeps_order(best, one, one.sum(s));
        ordering::law_times_one(best);
    }
    if module.account.confirmed_inventory.value() > 0 {
        let best = book.bids@[0].price;
        ordering::law_product_keeps_order(best, one.difference(s), one);
        ordering::law_times_one(best);
    }
}

/// The limit in figures: the best price raised or lowered by as many
/// ten-thousandths of itself as there are basis points of slippage, up to a part
/// in 2^50, which is lost in rounding.
pub proof fn law_flattening_limits_follow_the_slippage(module: ExecutionProbe)
    requires
        module.market.freshest() is Some,
        module.config.probe.ioc_slippage_bps.finite(),
        0 <= module.config.probe.ioc_slippage_bps.value() <= 100 * pow2(1074),
        module.account.confirmed_inventory.finite(),
        module.account.confirmed_inventory.value() != 0,
        module.market.book(module.market.freshest()->0).bids@[0].price.value() >= pow2(60),
        module.market.book(module.market.freshest()->0).asks@[0].price.finite(),
        module.flatten_limit().finite(),
    ensures
        ({
            let book = module.market.book(module.market.freshest()->0);
            let bps = module.config.probe.ioc_slippage_bps.value();
            let limit = module.flatten_limit().value();
            let best = if module.account.confirmed_inventory.value() < 0 {
                book.asks@[0].price.value()
            } else {
                book.bids@[0].price.value()
            };
            let whole = 10000 * pow2(1074);
            let part = if module.account.confirmed_inventory.value() < 0 {
                whole + bps
            } else {
                whole - bps
            };
            &&& grid::fine() * (limit * whole) <= (grid::fine() + 1) * (best * part)
            &&& grid::fine() * (best * part) <= (grid::fine() + 1) * (limit * whole)
        }),
{
    let book = module.market.book(module.market.freshest()->0);
    let short = module.account.confirmed_inventory.value() < 0;
    let bps = module.config.probe.ioc_slippage_bps;
    let one = ordering::one();
    let whole = constants::number(TEN_THOUSAND);
    let s = bps.quotient(whole);
    law_prices_come_from_the_latest_quote(module.market);
    lemma_slippage(bps);
    lemma_pow2_pos(1074);
    grid::lemma_powers();
    constants::law_constants_are_exact();
    ordering::lemma_zero_value();
    ordering::lemma_one();
    ordering::lemma_opposite(s);
    ordering::lemma_quotient_error(bps, whole);
    let signed = if short {
        s
    } else {
        s.opposite()
    };
    ordering::lemma_sum_error(one, signed);
    let best = if short {
        book.asks@[0].price
    } else {
        book.bids@[0].price
    };
    assert(best.finite()) by {
        ordering::lemma_below_infinity(book.bids@[0].price, book.asks@[0].price);
    }
    let m = one.sum(signed);
    assert(module.flatten_limit() == best.product(m));
    ordering::lemma_product_error(best, m);
    lemma_limit(
        module.flatten_limit().value(),
        best.value(),
        m.value(),
        s.value(),
        bps.value(),
        whole.value(),
        pow2(1074) as int,
        short,
    );
}

proof fn lemma_limit(l: int, p: int, m: int, s: int, b: int, z: int, u: int, short: bool)
    requires
        0x20_0000_0000_0000 * (s * z - b * u) <= s * z + 0x10_0000_0000_0000 * z,
        0x20_0000_0000_0000 * (b * u - s * z) <= s * z + 0x10_0000_0000_0000 * z,
        0x20_0000_0000_0000 * (m - (if short {
            u + s
        } else {
            u - s
        })) <= m + 0x10_0000_0000_0000,
        0x20_0000_0000_0000 * ((if short {
            u + s
        } else {
            u - s
        }) - m) <= m + 0x10_0000_0000_0000,
        0x20_0000_0000_0000 * (l * u - p * m) <= l * u + 0x10_0000_0000_0000 * u,
        0x20_0000_0000_0000 * (p * m - l * u) <= l * u + 0x10_0000_0000_0000 * u,
        p >= 0x1000_0000_0000_0000,
        u >= 0x400000000000000000000000000int,
        z == 10000 * u,
        0 <= b <= 100 * u,
        s >= 0,
        2 * s <= u,
    ensures
        0x4_0000_0000_0000 * (l * z) <= 0x4_0000_0000_0001 * (p * (if short {
            z + b
        } else {
            z - b
        })),
        0x4_0000_0000_0000 * (p * (if short {
            z + b
        } else {
            z - b
        })) <= 0x4_0000_0000_0001 * (l * z),
{
    let c = if short {
        u + s
    } else {
        u - s
    };
    let d = if short {
        z + b
    } else {
        z - b
    };
    let e = if short {
        s * z
    } else {
        -(s * z)
    };
    let f = if short {
        b * u
    } else {
        -(b * u)
    };
    grid::lemma_scaled_error(s * z, b * u, z, p);
    assert(z * p > 0) by (nonlinear_arith)
        requires
            z > 0,
            p > 0,
    ;
    grid::lemma_scaled_error(m, c, 1, z * p);
    grid::lemma_scaled_error(l * u, p * m, u, z);
    let w = (p * d) * u;
    let g = (l * z) * u;
    assert(l * u * z == g) by (nonlinear_arith)
        requires
            g == (l * z) * u,
    ;
    assert(m * (z * p) == (p * m) * z) by (nonlinear_arith);
    assert(c * (z * p) == (u * z) * p + e * p) by (nonlinear_arith)
        requires
            (c == u + s && e == s * z) || (c == u - s && e == -(s * z)),
    ;
    assert(w == (u * z) * p + f * p) by (nonlinear_arith)
        requires
            w == (p * d) * u,
            (d == z + b && f == b * u) || (d == z - b && f == -(b * u)),
    ;
    if short {
        assert(e * p == s * z * p && f * p == b * u * p) by (nonlinear_arith)
            requires
                e == s * z,
                f == b * u,
        ;
    } else {
        assert(e * p == -(s * z * p) && f * p == -(b * u * p)) by (nonlinear_arith)
            requires
                e == -(s * z),
                f == -(b * u),
        ;
    }
    let y = (u * z) * p;
    let h = z * p;
    let k = u * z;
    assert(y >= 0x400000000000000000000000000int * h) by (nonlinear_arith)
        requires
            y == (u * z) * p,
            h == z * p,
            u >= 0x400000000000000000000000000int,
            z > 0,
            p > 0,
    ;
    assert(y >= 0x1000_0000_0000_0000 * k && k > 0) by (nonlinear_arith)
        requires
            y == (u * z) * p,
            k == u * z,
            u > 0,
            z > 0,
            p >= 0x1000_0000_0000_0000,
    ;
    assert(100 * (b * u * p) <= y && b * u * p >= 0) by (nonlinear_arith)
        requires
            y == (u * z) * p,
            z == 10000 * u,
            0 <= b <= 100 * u,
            u > 0,
            p > 0,
    ;
    lemma_limit_linear(
        g,
        m * (z * p),
        y,
        s * z * p,
        b * u * p,
        h,
        k,
        short,
    );
    grid::lemma_cancel(0x4_0000_0000_0000, l * z, 0x4_0000_0000_0001, p * d, u);
    grid::lemma_cancel(0x4_0000_0000_0000, p * d, 0x4_0000_0000_0001, l * z, u);
}

proof fn lemma_limit_linear(g: int, x: int, y: int, s: int, b: int, h: int, k: int, short: bool)
    requires
        0x20_0000_0000_0000 * (s - b) <= s + 0x10_0000_0000_0000 * h,
        0x20_0000_0000_0000 * (b - s) <= s + 0x10_0000_0000_0000 * h,
        short ==> 0x20_0000_0000_0000 * (x - y - s) <= x + 0x10_0000_0000_0000 * h,
        short ==> 0x20_0000_0000_0000 * (y + s - x) <= x + 0x10_0000_0000_0000 * h,
        !short ==> 0x20_0000_0000_0000 * (x - y + s) <= x + 0x10_0000_0000_0000 * h,
        !short ==> 0x20_0000_0000_0000 * (y - s - x) <= x + 0x10_0000_0000_0000 * h,
        0x20_0000_0000_0000 * (g - x) <= g + 0x10_0000_0000_0000 * k,
        0x20_0000_0000_0000 * (x - g) <= g + 0x10_0000_0000_0000 * k,
        y >= 0x400000000000000000000000000int * h,
        y >= 0x1000_0000_0000_0000 * k,
        h > 0,
        k > 0,
        0 <= 100 * b <= y,
    ensures
        short ==> 0x4_0000_0000_0000 * g <= 0x4_0000_0000_0001 * (y + b),
        short ==> 0x4_0000_0000_0000 * (y + b) <= 0x4_0000_0000_0001 * g,
        !short ==> 0x4_0000_0000_0000 * g <= 0x4_0000_0000_0001 * (y - b),
        !short ==> 0x4_0000_0000_0000 * (y - b) <= 0x4_0000_0000_0001 * g,
{
}

/// The order that is sent is marketable: its side, its limit, and the direction
/// in which the limit is put on the grid all serve to bring the inventory back. Its
/// size is the exchange client's text for the inventory, a number above zero.
pub proof fn law_flattening_orders_are_marketable(
    module: ExecutionProbe,
    after: ExecutionProbe,
    dispatch: Dispatch,
    risk_exit: bool,
    around: Surroundings,
    log10_best: Binary64,
    normalized: Seq<char>,
)
    requires
        module.handles_flatten(
            after,
            Ok(FlattenStep::Send(dispatch)),
            risk_exit,
            around,
            log10_best,
            normalized,
        ),
        module.config.probe.ioc_slippage_bps.finite(),
        0 <= module.config.probe.ioc_slippage_bps.value() <= 100 * pow2(1074),
    ensures
        ({
            let book = module.market.book(module.market.freshest()->0);
            let held = module.account.confirmed_inventory;
            let buys = held.value() < 0;
            &&& module.market.freshest() is Some
            &&& is_latest_quote(module.market, book)
            &&& held.finite()
            &&& held.value() != 0
            &&& dispatch.context.side == Some(
                if buys {
                    ProbeSide::Bid
                } else {
                    ProbeSide::Ask
                },
            )
            &&& exists|limit: Binary64, tick: Binary64|
                {
                    &&& dispatch.context.price->0@ == notation::trimmed(
                        #[trigger] utils::on_grid(limit, tick, buys),
                        tick,
                    )
                    &&& buys ==> book.asks@[0].price.not_above(limit)
                    &&& !buys ==> limit.not_above(book.bids@[0].price)
                }
            &&& dispatch.context.size->0@ == normalized
            &&& crate::decimal::reading(normalized) is Some
            &&& !crate::decimal::reading(normalized)->0.nan()
            &&& crate::decimal::reading(normalized)->0.value() > 0
            &&& dispatch.context.oid is None
            &&& dispatch.context.probe_id == module.active_probe->0.probe_id
            &&& dispatch.context.remaining_size is None
            &&& dispatch.context.intent_id@ == "flatten-"@ + text::digits(
                after.action_sequence as nat,
            )
            &&& dispatch.context.action_id@ == "action-"@ + text::digits(
                after.action_sequence as nat,
            )
            &&& dispatch.context.decision_id@ == dispatch.decision.decision_id@
            &&& dispatch.decision.probe_id@ == module.active_probe->0.probe_id@
            &&& dispatch.decision.candidate_actions@.len() == 1
            &&& dispatch.decision.candidate_actions@[0] == dispatch.decision.selected_action
            &&& dispatch.decision.selected_action == (Action::Ioc {
                side: dispatch.context.side->0,
                price: dispatch.context.price->0,
                size: dispatch.context.size->0,
            })
            &&& dispatch.decision.planned_expiry_ts_ns is None
            &&& risk_exit ==> dispatch.decision.trigger_type == Trigger::HardInventoryGuard
                && dispatch.decision.reason_code == Reason::HardInventoryGuard
            &&& !risk_exit ==> dispatch.decision.trigger_type == Trigger::MarkoutComplete
                && dispatch.decision.reason_code == Reason::MarkoutComplete
            &&& after.active_probe == module.active_probe
            &&& after.account == module.account
        }),
{
    ordering::lemma_zero_value();
    ordering::law_absolute_forgets_the_sign(module.account.confirmed_inventory);
    law_flattening_limits_are_marketable(module);
    let tick = module.flatten_tick(log10_best);
    assert(utils::on_grid(
        module.flatten_limit(),
        tick,
        module.account.confirmed_inventory.value() < 0,
    ) == utils::on_grid(module.flatten_limit(), tick, module.flatten_side() == ProbeSide::Bid));
}

/// A request to flatten sends nothing where no order is needed, and fails where an
/// order is needed and no book is quoted.
pub proof fn law_flattening_waits_or_fails_openly(
    module: ExecutionProbe,
    after: ExecutionProbe,
    step: Result<FlattenStep, ProbeError>,
    risk_exit: bool,
    around: Surroundings,
    log10_best: Binary64,
    normalized: Seq<char>,
)
    requires
        module.handles_flatten(after, step, risk_exit, around, log10_best, normalized),
    ensures
        module.flatten_need(risk_exit) != FlattenNeed::Order ==> step is Ok && step->Ok_0 is Wait
            && after == module,
        module.flatten_need(risk_exit) == FlattenNeed::Order && module.market.freshest() is None
            ==> step is Err && after == module,
        module.flatten_need(risk_exit) == FlattenNeed::Order && module.market.freshest() is Some
            && step is Ok ==> step->Ok_0 is Send,
{
}

/// The price step of a flattening order is that of the best price it is sent
/// against: five significant digits of that price, and with the decimals of the
/// size no finer than those leave of six. A size that tells no decimals has four.
pub proof fn law_flattening_ticks_fit_the_price(module: ExecutionProbe, log10_best: Binary64)
    requires
        module.flatten_best() is Some,
        module.flatten_best()->0.finite(),
        module.flatten_best()->0.value() > 0,
        module.account.size_decimals is Some ==> module.account.size_decimals->0 <= 6,
    ensures
        ({
            let tick = module.flatten_tick(log10_best);
            let digits = log10_best.floored().truncated() + 1;
            let coarse = utils::ten_power(digits - 5);
            let finest = utils::ten_power(
                (if module.account.size_decimals is Some {
                    module.account.size_decimals->0 as int
                } else {
                    4
                }) - 6,
            );
            &&& tick == coarse || tick == finest
            &&& !coarse.nan() ==> coarse.not_above(tick)
            &&& !finest.nan() ==> finest.not_above(tick)
        }),
{
    grid::law_the_tick_keeps_five_digits(
        module.flatten_best()->0,
        match module.account.size_decimals {
            Some(decimals) => decimals,
            None => 4,
        },
        log10_best,
    );
}

/// Where the size has too many decimals for any price step, the step is one.
pub proof fn law_flattening_ticks_default_to_one(module: ExecutionProbe, log10_best: Binary64)
    requires
        module.flatten_best() is Some,
        module.account.size_decimals is Some,
        module.account.size_decimals->0 > 6,
    ensures
        module.flatten_tick(log10_best).value() == pow2(1074),
{
    ordering::lemma_one();
}

/// When an order is needed: a probe is active and not being flattened, its
/// markouts are taken or the exit is one of risk, and the inventory of either side
/// is at least half a lot.
pub proof fn law_flattening_needs_an_inventory(module: ExecutionProbe, risk_exit: bool)
    requires
        module.account.confirmed_inventory.finite(),
        module.account.lot().finite(),
        module.account.lot().value() > 0,
    ensures
        ({
            let held = module.account.confirmed_inventory.value();
            let half = module.account.lot().product(constants::number(constants::HALF)).value();
            let waits = exists|i: int|
                0 <= i < module.pending_markouts@.len() && (
                #[trigger] module.pending_markouts@[i]).probe_id@
                    == module.active_probe->0.probe_id@;
            let now = module.active_probe is Some && module.active_probe->0.phase
                != ProbePhase::FlattenPending && (risk_exit || !waits);
            let filled = module.active_probe->0.cumulative_filled_size;
            &&& module.flatten_need(risk_exit) == FlattenNeed::NotNow <==> !now
            &&& module.flatten_need(risk_exit) == FlattenNeed::Order <==> now && (held >= half
                || -held >= half)
            &&& module.flatten_need(risk_exit) == FlattenNeed::AwaitInventory <==> now && -half
                < held < half && !filled.nan() && filled.value() > 0
            &&& module.flatten_need(risk_exit) == FlattenNeed::Flat <==> now && -half < held < half
                && (filled.nan() || filled.value() <= 0)
        }),
{
    let held = module.account.confirmed_inventory;
    let lot = module.account.lot();
    ordering::lemma_zero_value();
    ordering::law_absolute_forgets_the_sign(held);
    constants::law_constants_are_exact();
    ordering::law_signs_multiply(lot, constants::number(constants::HALF));
}

} // verus!
