//! What connections are counted for.
use vstd::prelude::*;
use vstd::arithmetic::power2::*;
use crate::arch::records::SystemEvent;
use crate::arch::schema::RawEventRecord;
use crate::arch::storage::StorageStream;
use crate::binary64;
use crate::constants;
use crate::constants::MILLION;
use crate::json::Json;
use crate::ordering;
use crate::rounding;
use crate::text;
use super::super::base;
use super::super::base::ExecutionProbe;
use super::super::connections;
use super::super::connections::{Opening, RawFrame};
use super::super::feeds;
use super::super::feeds::{FeedPlan, Field, Venue, VenueMessages};
use super::super::frames;
use super::super::state::{ActiveProbe, MarketState};
use super::super::utils::{
    MarketConfig, TASK_BINANCE_AGG_TRADE, TASK_BINANCE_LOB, TASK_HL_ACTION, TASK_HL_FAST_L2,
    TASK_HL_PRIVATE, TASK_HL_STANDARD, TASK_OKX_LOB, TASK_OKX_TRADES_ALL,
};
use super::grid;

verus! {

/// A new connection is one more than the one before and counts its frames from
/// nothing; connections of other tasks stay. Only a renewed private connection voids
/// the evidence that an order is gone, and nothing else of the probe.
pub proof fn law_connections_are_numbered(
    before: ExecutionProbe,
    after: ExecutionProbe,
    plan: FeedPlan,
    other: u64,
)
    requires
        before.is_connecting(after, plan),
    ensures
        ({
            let was = if before.connections@.contains_key(plan.task_id) {
                before.connections@[plan.task_id].generation
            } else {
                0
            };
            let now = after.connections@[plan.task_id];
            &&& after.connections@.contains_key(plan.task_id)
            &&& was < u64::MAX ==> now.generation == was + 1
            &&& now.frame_seq == 0
            &&& now.last_receive_monotonic_ns is None
            &&& now.connection_id@ == plan.feed@ + "-"@ + text::digits(now.generation as nat)
            &&& other != plan.task_id && before.connections@.contains_key(other)
                ==> after.connections@.contains_key(other) && after.connections@[other]
                == before.connections@[other]
            &&& before.active_probe is None ==> after.active_probe is None
            &&& before.active_probe is Some && plan.task_id == TASK_HL_PRIVATE && 0 < was
                ==> after.active_probe == Some(
                ActiveProbe {
                    terminal_order_update_monotonic_ns: None,
                    ..before.active_probe->0
                },
            )
            &&& plan.task_id != TASK_HL_PRIVATE || was == 0 ==> after.active_probe
                == before.active_probe
            &&& after.account == before.account
            &&& after.pending_markouts == before.pending_markouts
        }),
{
    assert(connections::connection_of(after.connections@, other) == connections::connection_of(
        after.connections@,
        other,
    ));
}

/// Each frame is counted on its own connection, and is stored under that number
/// with its text, its times and the time of the exchange.
pub proof fn law_frames_are_counted(
    before: ExecutionProbe,
    after: ExecutionProbe,
    record: RawEventRecord,
    plan: FeedPlan,
    raw: RawFrame,
    frame: Json,
)
    requires
        before.has_counted(after, plan.task_id, raw.received_monotonic_ns),
        before.is_frame_record(record, plan, raw, frame),
        before.connections@.contains_key(plan.task_id),
        before.connections@[plan.task_id].frame_seq < u64::MAX,
    ensures
        ({
            let was = before.connections@[plan.task_id];
            let now = after.connections@[plan.task_id];
            &&& now.frame_seq == was.frame_seq + 1
            &&& now.generation == was.generation
            &&& now.connection_id@ == was.connection_id@
            &&& now.last_receive_monotonic_ns == Some(raw.received_monotonic_ns)
            &&& record.envelope.connection_frame_seq == Some(now.frame_seq)
            &&& record.envelope.raw_json == Some(raw.raw_json)
            &&& record.envelope.received_monotonic_ns == raw.received_monotonic_ns
            &&& record.envelope.decoded_monotonic_ns == raw.decoded_monotonic_ns
            &&& record.envelope.exchange_ts_ns == frames::exchange_time(frame)
            &&& raw.timestamp_us * 1_000 <= u64::MAX ==> record.envelope.received_wall_ns
                == raw.timestamp_us * 1_000
            &&& record.source == plan.source
            &&& record.feed == plan.feed
            &&& record.envelope.event_type@ == "raw_"@ + plan.feed@
            &&& text::optional_text(record.envelope.connection_id) == Some(was.connection_id@)
            &&& text::optional_text(record.channel) == frames::channel_of(frame)
            &&& after.active_probe == before.active_probe
            &&& after.market == before.market
        }),
{
}

/// Raw frames of the action feed go to the actions, private ones to the private
/// stream, and all others to the market.
pub proof fn law_frames_go_to_their_stream(plan: FeedPlan)
    ensures
        plan.is_action ==> connections::frame_stream(plan) == StorageStream::Actions,
        !plan.is_action && plan.is_private ==> connections::frame_stream(plan)
            == StorageStream::PrivateWs,
        !plan.is_action && !plan.is_private ==> connections::frame_stream(plan)
            == StorageStream::PublicMarket,
{
}

/// A time in milliseconds, times a million, gives its nanoseconds back, up to a part
/// in 2^50.
pub proof fn law_milliseconds_are_a_millionth(nanoseconds: u64)
    requires
        0 < nanoseconds <= 2 * rounding::NORMAL,
        connections::in_milliseconds(nanoseconds).finite(),
    ensures
        ({
            let found = connections::in_milliseconds(nanoseconds).value() * 1_000_000;
            let exact = nanoseconds * pow2(1074);
            &&& grid::fine() * found <= (grid::fine() + 1) * exact
            &&& grid::fine() * exact <= (grid::fine() + 1) * found
        }),
{
    let whole = binary64::whole_number(false, nanoseconds as nat);
    let million = constants::number(MILLION);
    let u = pow2(1074) as int;
    lemma_pow2_pos(1074);
    grid::lemma_powers();
    constants::law_constants_are_exact();
    ordering::lemma_whole_number_value(false, nanoseconds as nat);
    assert(nanoseconds * u > 0) by (nonlinear_arith)
        requires
            nanoseconds > 0,
            u > 0,
    ;
    ordering::lemma_quotient_error(whole, million);
    let q = connections::in_milliseconds(nanoseconds).value();
    let f = q * 1_000_000;
    let e = nanoseconds * u;
    assert(q * (1_000_000 * u) == f * u) by (nonlinear_arith)
        requires
            f == q * 1_000_000,
    ;
    assert(e >= u) by (nonlinear_arith)
        requires
            e == nanoseconds * u,
            nanoseconds >= 1,
            u > 0,
    ;
    let v = u * 1_000_000;
    let x = f * u;
    let y = e * u;
    assert(y >= u * u) by (nonlinear_arith)
        requires
            y == e * u,
            e >= u,
            u > 0,
    ;
    assert(u * u >= 0x400000000000000000000000000int * u) by (nonlinear_arith)
        requires
            u >= 0x400000000000000000000000000int,
    ;
    lemma_millionth(x, y, u);
    assert(x == f * u && y == e * u);
    grid::lemma_cancel(0x4_0000_0000_0000, f, 0x4_0000_0000_0001, e, u);
    grid::lemma_cancel(0x4_0000_0000_0000, e, 0x4_0000_0000_0001, f, u);
}

proof fn lemma_millionth(x: int, y: int, u: int)
    requires
        0x20_0000_0000_0000 * (x - y) <= x + 0x10_0000_0000_0000 * (1_000_000 * u),
        0x20_0000_0000_0000 * (y - x) <= x + 0x10_0000_0000_0000 * (1_000_000 * u),
        y >= 0x400000000000000000000000000int * u,
        u > 0,
    ensures
        0x4_0000_0000_0000 * x <= 0x4_0000_0000_0001 * y,
        0x4_0000_0000_0000 * y <= 0x4_0000_0000_0001 * x,
{
}

/// A feed comes over one connection at most: no reconnection clears the feeds of
/// another.
pub proof fn law_feeds_have_one_connection(a: Seq<char>, b: Seq<char>, feed: Seq<char>)
    requires
        MarketState::is_carried(a, feed),
        MarketState::is_carried(b, feed),
    ensures
        a == b,
{
    reveal_strlit("hl_bbo");
    reveal_strlit("hl_default_l2");
    reveal_strlit("hl_trades");
    reveal_strlit("hl_active_asset_ctx");
    reveal_strlit("hl_fast_l2");
    reveal_strlit("binance_bbo");
    reveal_strlit("binance_depth");
    reveal_strlit("binance_agg_trade");
    reveal_strlit("okx_bbo");
    reveal_strlit("okx_books");
    reveal_strlit("okx_trades_all");
    assert("hl_bbo"@.len() == 6 && "hl_default_l2"@.len() == 13 && "hl_trades"@.len() == 9);
    assert("hl_active_asset_ctx"@.len() == 19 && "hl_fast_l2"@.len() == 10);
    assert("binance_bbo"@.len() == 11 && "binance_depth"@.len() == 13);
    assert("binance_agg_trade"@.len() == 17 && "okx_bbo"@.len() == 7 && "okx_books"@.len() == 9);
    assert("okx_trades_all"@.len() == 14);
    assert("hl_default_l2"@[0] == 'h' && "binance_depth"@[0] == 'b');
    assert("hl_trades"@[0] == 'h' && "okx_books"@[0] == 'o');
}

/// A plan is found under its task, the last one where a task has several.
pub proof fn law_plans_stand_under_their_task(plans: Seq<FeedPlan>, last: FeedPlan, task_id: u64)
    ensures
        base::plans_by_task(plans.push(last)).contains_key(last.task_id),
        base::plans_by_task(plans.push(last))[last.task_id] == last,
        task_id != last.task_id ==> base::plans_by_task(plans.push(last)).contains_key(task_id)
            == base::plans_by_task(plans).contains_key(task_id),
        task_id != last.task_id && base::plans_by_task(plans).contains_key(task_id)
            ==> base::plans_by_task(plans.push(last))[task_id] == base::plans_by_task(
            plans,
        )[task_id],
{
    assert(plans.push(last).drop_last() =~= plans);
}

/// A connection that is opened tells its task, its feed, its name and how often the
/// task was connected, and that evidence is void exactly where it is.
pub proof fn law_openings_tell_their_connection(
    module: ExecutionProbe,
    opening: Opening,
    plan: FeedPlan,
)
    requires
        module.is_opening(opening, plan),
        module.connections@.contains_key(plan.task_id),
        module.connections@[plan.task_id].generation < u64::MAX,
    ensures
        ({
            let number = (module.connections@[plan.task_id].generation + 1) as u64;
            &&& opening.connection_id@ == plan.feed@ + "-"@ + text::digits(number as nat)
            &&& opening.start matches SystemEvent::ConnectionStart {
                task_id,
                source,
                feed,
                connection_id,
                reconnect_index,
            } && task_id == plan.task_id && source == plan.source && feed == plan.feed
                && connection_id == opening.connection_id && reconnect_index == number
            &&& opening.notice is Some <==> plan.task_id == TASK_HL_PRIVATE && number > 1
        }),
{
}

/// Only the private feed and the action feed are private, and only actions go over
/// the latter; the private feed follows the orders, the fills and the positions of
/// the user. Each public feed is connected under the name by which it is cleared.
pub proof fn law_only_own_feeds_are_private(
    plans: Seq<FeedPlan>,
    markets: MarketConfig,
    user: Seq<char>,
    messages: VenueMessages,
    i: int,
)
    requires
        feeds::are_plans(plans, markets, user, messages),
        0 <= i < plans.len(),
    ensures
        plans[i].is_private <==> plans[i].task_id == TASK_HL_PRIVATE || plans[i].task_id
            == TASK_HL_ACTION,
        plans[i].is_action <==> plans[i].task_id == TASK_HL_ACTION,
        plans[i].task_id == TASK_HL_PRIVATE ==> feeds::subscribes_to(
            plans[i].subscriptions@[0]@,
            feeds::order_fields(user),
        ) && feeds::subscribes_to(plans[i].subscriptions@[1]@, feeds::fill_fields(user))
            && feeds::subscribes_to(
            plans[i].subscriptions@[2]@,
            feeds::position_fields(user, markets.hyperliquid_perp_dex@),
        ),
        plans[i].task_id == TASK_HL_STANDARD ==> MarketState::is_carried(
            plans[i].feed@,
            "hl_bbo"@,
        ) && MarketState::is_carried(plans[i].feed@, "hl_default_l2"@)
            && MarketState::is_carried(plans[i].feed@, "hl_trades"@) && MarketState::is_carried(
            plans[i].feed@,
            "hl_active_asset_ctx"@,
        ),
        plans[i].task_id == TASK_HL_FAST_L2 ==> MarketState::is_carried(
            plans[i].feed@,
            "hl_fast_l2"@,
        ),
        plans[i].task_id == TASK_BINANCE_LOB ==> MarketState::is_carried(
            plans[i].feed@,
            "binance_bbo"@,
        ) && MarketState::is_carried(plans[i].feed@, "binance_depth"@),
        plans[i].task_id == TASK_BINANCE_AGG_TRADE ==> MarketState::is_carried(
            plans[i].feed@,
            "binance_agg_trade"@,
        ),
        plans[i].task_id == TASK_OKX_LOB ==> MarketState::is_carried(plans[i].feed@, "okx_bbo"@)
            && MarketState::is_carried(plans[i].feed@, "okx_books"@),
        plans[i].task_id == TASK_OKX_TRADES_ALL ==> MarketState::is_carried(
            plans[i].feed@,
            "okx_trades_all"@,
        ),
{
    assert(i == 0 || i == 1 || i == 2 || i == 3 || i == 4 || i == 5 || i == 6 || i == 7);
}

/// What the subscriptions ask for: the context of the coin, and the orders, the
/// single fills and the positions of the user, the last in the exchange's own part.
pub proof fn law_subscriptions_ask_for_their_owner(
    coin: Seq<char>,
    user: Seq<char>,
    dex: Seq<char>,
)
    ensures
        feeds::context_fields(coin) =~= seq![
            ("type"@, Field::Text("activeAssetCtx"@)),
            ("coin"@, Field::Text(coin)),
        ],
        feeds::order_fields(user) =~= seq![
            ("type"@, Field::Text("orderUpdates"@)),
            ("user"@, Field::Text(user)),
        ],
        feeds::fill_fields(user) =~= seq![
            ("type"@, Field::Text("userFills"@)),
            ("user"@, Field::Text(user)),
            ("aggregateByTime"@, Field::Flag(false)),
        ],
        feeds::position_fields(user, dex) =~= seq![
            ("type"@, Field::Text("clearinghouseState"@)),
            ("user"@, Field::Text(user)),
            ("dex"@, Field::Text(dex)),
        ],
{
}

/// Each connection sends the messages of its own venue to that venue, and its
/// frames are kept under that venue's name.
pub proof fn law_connections_keep_to_their_venue(
    plans: Seq<FeedPlan>,
    markets: MarketConfig,
    user: Seq<char>,
    messages: VenueMessages,
    i: int,
)
    requires
        feeds::are_plans(plans, markets, user, messages),
        0 <= i < plans.len(),
    ensures
        plans[i].source@ == (match plans[i].market {
            Venue::HyperLiquid => "hyperliquid"@,
            Venue::BinanceUmFutures => "binance"@,
            Venue::Okx => "okx"@,
        }),
        plans[i].market == Venue::HyperLiquid <==> plans[i].task_id == TASK_HL_STANDARD
            || plans[i].task_id == TASK_HL_FAST_L2 || plans[i].task_id == TASK_HL_PRIVATE
            || plans[i].task_id == TASK_HL_ACTION,
        plans[i].market == Venue::Okx <==> plans[i].task_id == TASK_OKX_LOB || plans[i].task_id
            == TASK_OKX_TRADES_ALL,
        plans[i].market == Venue::HyperLiquid ==> plans[i].url == messages.hl_url,
        plans[i].task_id == TASK_BINANCE_LOB ==> plans[i].url == messages.binance_lob_url
            && plans[i].subscriptions@ =~= seq![messages.binance_bbo, messages.binance_depth],
        plans[i].task_id == TASK_BINANCE_AGG_TRADE ==> plans[i].url == messages.binance_trades_url
            && plans[i].subscriptions@ =~= seq![messages.binance_trades],
        plans[i].task_id == TASK_OKX_LOB ==> plans[i].url == messages.okx_lob_url
            && plans[i].subscriptions@ =~= seq![messages.okx_bbo, messages.okx_books],
        plans[i].task_id == TASK_OKX_TRADES_ALL ==> plans[i].url == messages.okx_trades_url
            && plans[i].subscriptions@ =~= seq![messages.okx_trades],
        plans[i].task_id == TASK_HL_FAST_L2 ==> plans[i].subscriptions@ =~= seq![
            messages.hl_fast_l2,
        ],
        plans[i].task_id == TASK_HL_STANDARD ==> {
            let asked = plans[i].subscriptions@;
            &&& asked.len() == 4
            &&& asked[0] == messages.hl_bbo
            &&& asked[1] == messages.hl_default_l2
            &&& asked[2] == messages.hl_trades
            &&& feeds::subscribes_to(
                asked[3]@,
                feeds::context_fields(markets.hyperliquid_coin@),
            )
        },
        plans[i].task_id == TASK_HL_ACTION ==> plans[i].subscriptions@.len() == 0,
{
    assert(i == 0 || i == 1 || i == 2 || i == 3 || i == 4 || i == 5 || i == 6 || i == 7);
}

} // verus!
