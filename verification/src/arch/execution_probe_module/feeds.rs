//! The feeds of the collector.
use vstd::prelude::*;
use crate::json;
use crate::json::{Json, compact};
use crate::text::owned;
use super::utils::{
    MarketConfig, TASK_BINANCE_AGG_TRADE, TASK_BINANCE_LOB, TASK_HL_ACTION, TASK_HL_FAST_L2,
    TASK_HL_PRIVATE, TASK_HL_STANDARD, TASK_OKX_LOB, TASK_OKX_TRADES_ALL,
};

verus! {

/// A venue.
#[derive(Clone, Copy, Debug, PartialEq, Eq, Structural)]
pub enum Venue {
    HyperLiquid,
    BinanceUmFutures,
    Okx,
}

/// How a feed is connected.
#[derive(Debug)]
pub struct FeedPlan {
    pub task_id: u64,
    pub market: Venue,
    pub channel: String,
    pub source: String,
    pub feed: String,
    pub url: String,
    pub subscriptions: Vec<String>,
    pub is_private: bool,
    pub is_action: bool,
}

/// The addresses and subscriptions that the clients of the venues give.
#[derive(Debug)]
pub struct VenueMessages {
    pub hl_url: String,
    pub hl_bbo: String,
    pub hl_default_l2: String,
    pub hl_trades: String,
    pub hl_fast_l2: String,
    /// The channel on which actions are sent.
    pub hl_action_channel: String,
    pub binance_lob_url: String,
    pub binance_bbo: String,
    pub binance_depth: String,
    pub binance_trades_url: String,
    pub binance_trades: String,
    pub okx_lob_url: String,
    pub okx_bbo: String,
    pub okx_books: String,
    pub okx_trades_url: String,
    pub okx_trades: String,
}

/// The value of an entry in a subscription.
pub ghost enum Field {
    Text(Seq<char>),
    Flag(bool),
}

/// A value is that of a field.
pub open spec fn is_field(value: Json, field: Field) -> bool {
    match field {
        Field::Text(chars) => value.characters() == Some(chars),
        Field::Flag(flag) => value == Json::Bool(flag),
    }
}

/// Entries are those of the fields, in order.
pub open spec fn are_fields(entries: Seq<(String, Json)>, fields: Seq<(Seq<char>, Field)>) -> bool {
    &&& entries.len() == fields.len()
    &&& forall|i: int|
        0 <= i < fields.len() ==> (#[trigger] entries[i]).0@ == fields[i].0 && is_field(
            entries[i].1,
            fields[i].1,
        )
}

/// A document that subscribes to what the fields describe.
pub open spec fn is_subscription(document: Json, fields: Seq<(Seq<char>, Field)>) -> bool {
    &&& document matches Json::Object(entries)
    &&& entries@.len() == 2
    &&& entries@[0].0@ == "method"@
    &&& entries@[0].1.characters() == Some("subscribe"@)
    &&& entries@[1].0@ == "subscription"@
    &&& entries@[1].1 matches Json::Object(inner)
    &&& are_fields(inner@, fields)
}

/// The compact text of a document that subscribes to what the fields describe.
pub open spec fn subscribes_to(message: Seq<char>, fields: Seq<(Seq<char>, Field)>) -> bool {
    exists|document: Json| #[trigger]
        is_subscription(document, fields) && message == json::compact_text(document)
}

fn subscription(fields: Vec<(String, Json)>) -> (r: String)
    ensures
        forall|wanted: Seq<(Seq<char>, Field)>| #[trigger]
            are_fields(fields@, wanted) ==> subscribes_to(r@, wanted),
{
    let mut entries: Vec<(String, Json)> = Vec::new();
    let ghost inner = fields@;
    entries.push((owned("method"), Json::Text(owned("subscribe"))));
    entries.push((owned("subscription"), Json::Object(fields)));
    let document = Json::Object(entries);
    let r = compact(&document);
    proof {
        assert forall|wanted: Seq<(Seq<char>, Field)>| #[trigger]
            are_fields(inner, wanted) implies subscribes_to(r@, wanted) by {
            assert(is_subscription(document, wanted));
        }
    }
    r
}

/// The context of the coin.
pub open spec fn context_fields(coin: Seq<char>) -> Seq<(Seq<char>, Field)> {
    seq![("type"@, Field::Text("activeAssetCtx"@)), ("coin"@, Field::Text(coin))]
}

/// The order updates of a user.
pub open spec fn order_fields(user: Seq<char>) -> Seq<(Seq<char>, Field)> {
    seq![("type"@, Field::Text("orderUpdates"@)), ("user"@, Field::Text(user))]
}

/// The fills of a user, each on its own.
pub open spec fn fill_fields(user: Seq<char>) -> Seq<(Seq<char>, Field)> {
    seq![
        ("type"@, Field::Text("userFills"@)),
        ("user"@, Field::Text(user)),
        ("aggregateByTime"@, Field::Flag(false)),
    ]
}

/// The positions of a user.
pub open spec fn position_fields(user: Seq<char>, dex: Seq<char>) -> Seq<(Seq<char>, Field)> {
    seq![
        ("type"@, Field::Text("clearinghouseState"@)),
        ("user"@, Field::Text(user)),
        ("dex"@, Field::Text(dex)),
    ]
}

fn text_field(name: &str, value: &str) -> (r: (String, Json))
    ensures
        r.0@ == name@,
        is_field(r.1, Field::Text(value@)),
{
    (owned(name), Json::Text(owned(value)))
}

fn context_subscription(coin: &str) -> (r: String)
    ensures
        subscribes_to(r@, context_fields(coin@)),
{
    let mut fields: Vec<(String, Json)> = Vec::new();
    fields.push(text_field("type", "activeAssetCtx"));
    fields.push(text_field("coin", coin));
    proof {
        assert(are_fields(fields@, context_fields(coin@)));
    }
    subscription(fields)
}

fn order_subscription(user: &str) -> (r: String)
    ensures
        subscribes_to(r@, order_fields(user@)),
{
    let mut fields: Vec<(String, Json)> = Vec::new();
    fields.push(text_field("type", "orderUpdates"));
    fields.push(text_field("user", user));
    proof {
        assert(are_fields(fields@, order_fields(user@)));
    }
    subscription(fields)
}

fn fill_subscription(user: &str) -> (r: String)
    ensures
        subscribes_to(r@, fill_fields(user@)),
{
    let mut fields: Vec<(String, Json)> = Vec::new();
    fields.push(text_field("type", "userFills"));
    fields.push(text_field("user", user));
    fields.push((owned("aggregateByTime"), Json::Bool(false)));
    proof {
        assert(are_fields(fields@, fill_fields(user@)));
    }
    subscription(fields)
}

fn position_subscription(user: &str, dex: &str) -> (r: String)
    ensures
        subscribes_to(r@, position_fields(user@, dex@)),
{
    let mut fields: Vec<(String, Json)> = Vec::new();
    fields.push(text_field("type", "clearinghouseState"));
    fields.push(text_field("user", user));
    fields.push(text_field("dex", dex));
    proof {
        assert(are_fields(fields@, position_fields(user@, dex@)));
    }
    subscription(fields)
}

impl FeedPlan {
    /// The plan of a feed whose channel is named after it.
    pub open spec fn is_public(
        self,
        task_id: u64,
        market: Venue,
        source: Seq<char>,
        feed: Seq<char>,
        url: String,
    ) -> bool {
        &&& self.task_id == task_id
        &&& self.market == market
        &&& self.channel@ == feed
        &&& self.source@ == source
        &&& self.feed@ == feed
        &&& self.url == url
        &&& !self.is_private
        &&& !self.is_action
    }

    /// The plan of a private Hyperliquid feed.
    pub open spec fn is_own(
        self,
        task_id: u64,
        channel: Seq<char>,
        feed: Seq<char>,
        url: String,
        action: bool,
    ) -> bool {
        &&& self.task_id == task_id
        &&& self.market == Venue::HyperLiquid
        &&& self.channel@ == channel
        &&& self.source@ == "hyperliquid"@
        &&& self.feed@ == feed
        &&& self.url == url
        &&& self.is_private
        &&& self.is_action == action
    }
}

/// The tasks of the feeds, in the order of their plans.
pub open spec fn feed_tasks() -> Seq<u64> {
    seq![
        TASK_HL_STANDARD,
        TASK_HL_FAST_L2,
        TASK_HL_PRIVATE,
        TASK_HL_ACTION,
        TASK_BINANCE_LOB,
        TASK_BINANCE_AGG_TRADE,
        TASK_OKX_LOB,
        TASK_OKX_TRADES_ALL,
    ]
}

/// The plans of all feeds.
pub open spec fn are_plans(
    plans: Seq<FeedPlan>,
    markets: MarketConfig,
    user: Seq<char>,
    m: VenueMessages,
) -> bool {
    let hl = Venue::HyperLiquid;
    let binance = Venue::BinanceUmFutures;
    &&& plans.len() == 8
    &&& plans[0].is_public(TASK_HL_STANDARD, hl, "hyperliquid"@, "hl_standard"@, m.hl_url)
    &&& plans[0].subscriptions@.len() == 4
    &&& plans[0].subscriptions@[0] == m.hl_bbo
    &&& plans[0].subscriptions@[1] == m.hl_default_l2
    &&& plans[0].subscriptions@[2] == m.hl_trades
    &&& subscribes_to(
        plans[0].subscriptions@[3]@,
        context_fields(markets.hyperliquid_coin@),
    )
    &&& plans[1].is_public(TASK_HL_FAST_L2, hl, "hyperliquid"@, "hl_fast_l2"@, m.hl_url)
    &&& plans[1].subscriptions@ == seq![m.hl_fast_l2]
    &&& plans[2].is_own(TASK_HL_PRIVATE, "hl_private"@, "hl_private"@, m.hl_url, false)
    &&& plans[2].subscriptions@.len() == 3
    &&& subscribes_to(plans[2].subscriptions@[0]@, order_fields(user))
    &&& subscribes_to(plans[2].subscriptions@[1]@, fill_fields(user))
    &&& subscribes_to(
        plans[2].subscriptions@[2]@,
        position_fields(user, markets.hyperliquid_perp_dex@),
    )
    &&& plans[3].is_own(TASK_HL_ACTION, m.hl_action_channel@, "hl_action"@, m.hl_url, true)
    &&& plans[3].subscriptions@.len() == 0
    &&& plans[4].is_public(
        TASK_BINANCE_LOB,
        binance,
        "binance"@,
        "binance_lob"@,
        m.binance_lob_url,
    )
    &&& plans[4].subscriptions@ == seq![m.binance_bbo, m.binance_depth]
    &&& plans[5].is_public(
        TASK_BINANCE_AGG_TRADE,
        binance,
        "binance"@,
        "binance_agg_trade"@,
        m.binance_trades_url,
    )
    &&& plans[5].subscriptions@ == seq![m.binance_trades]
    &&& plans[6].is_public(TASK_OKX_LOB, Venue::Okx, "okx"@, "okx_public_lob"@, m.okx_lob_url)
    &&& plans[6].subscriptions@ == seq![m.okx_bbo, m.okx_books]
    &&& plans[7].is_public(
        TASK_OKX_TRADES_ALL,
        Venue::Okx,
        "okx"@,
        "okx_trades_all"@,
        m.okx_trades_url,
    )
    &&& plans[7].subscriptions@ == seq![m.okx_trades]
}

/// Every feed has a task of its own.
pub proof fn law_feeds_have_their_own_tasks(
    plans: Seq<FeedPlan>,
    markets: MarketConfig,
    user: Seq<char>,
    messages: VenueMessages,
)
    requires
        are_plans(plans, markets, user, messages),
    ensures
        forall|i: int|
            0 <= i < plans.len() ==> (#[trigger] plans[i]).task_id == feed_tasks()[i],
        forall|i: int, j: int|
            0 <= i < j < plans.len() ==> (#[trigger] plans[i]).task_id != (
            #[trigger] plans[j]).task_id,
{
    assert forall|i: int| 0 <= i < plans.len() implies (#[trigger] plans[i]).task_id
        == feed_tasks()[i] by {
        assert(i == 0 || i == 1 || i == 2 || i == 3 || i == 4 || i == 5 || i == 6 || i == 7);
    }
}

fn one(message: String) -> (r: Vec<String>)
    ensures
        r@ == seq![message],
{
    let mut out: Vec<String> = Vec::new();
    let ghost expected = seq![message];
    out.push(message);
    proof {
        assert(out@ =~= expected);
    }
    out
}

fn two(first: String, second: String) -> (r: Vec<String>)
    ensures
        r@ == seq![first, second],
{
    let mut out: Vec<String> = Vec::new();
    let ghost expected = seq![first, second];
    out.push(first);
    out.push(second);
    proof {
        assert(out@ =~= expected);
    }
    out
}

fn public_plan(
    task_id: u64,
    market: Venue,
    source: &str,
    feed: &str,
    url: String,
    subscriptions: Vec<String>,
) -> (r: FeedPlan)
    ensures
        r.is_public(task_id, market, source@, feed@, url),
        r.subscriptions == subscriptions,
{
    FeedPlan {
        task_id,
        market,
        channel: owned(feed),
        source: owned(source),
        feed: owned(feed),
        url,
        subscriptions,
        is_private: false,
        is_action: false,
    }
}

fn own_plan(
    task_id: u64,
    channel: &str,
    feed: &str,
    url: String,
    subscriptions: Vec<String>,
    is_action: bool,
) -> (r: FeedPlan)
    ensures
        r.is_own(task_id, channel@, feed@, url, is_action),
        r.subscriptions == subscriptions,
{
    FeedPlan {
        task_id,
        market: Venue::HyperLiquid,
        channel: owned(channel),
        source: owned("hyperliquid"),
        feed: owned(feed),
        url,
        subscriptions,
        is_private: true,
        is_action,
    }
}

/// The plans of all feeds. `owner_address` is the account whose orders are
/// followed.
pub fn build_feed_plans(markets: &MarketConfig, owner_address: &str, messages: VenueMessages) -> (r:
    Vec<FeedPlan>)
    ensures
        are_plans(r@, *markets, owner_address@, messages),
{
    let hl = Venue::HyperLiquid;
    let binance = Venue::BinanceUmFutures;
    let mut standard: Vec<String> = Vec::new();
    standard.push(messages.hl_bbo);
    standard.push(messages.hl_default_l2);
    standard.push(messages.hl_trades);
    standard.push(context_subscription(markets.hyperliquid_coin.as_str()));
    let mut private: Vec<String> = Vec::new();
    private.push(order_subscription(owner_address));
    private.push(fill_subscription(owner_address));
    private.push(position_subscription(owner_address, markets.hyperliquid_perp_dex.as_str()));
    let mut out: Vec<FeedPlan> = Vec::new();
    out.push(
        public_plan(
            TASK_HL_STANDARD,
            hl,
            "hyperliquid",
            "hl_standard",
            messages.hl_url.clone(),
            standard,
        ),
    );
    out.push(
        public_plan(
            TASK_HL_FAST_L2,
            hl,
            "hyperliquid",
            "hl_fast_l2",
            messages.hl_url.clone(),
            one(messages.hl_fast_l2),
        ),
    );
    out.push(
        own_plan(
            TASK_HL_PRIVATE,
            "hl_private",
            "hl_private",
            messages.hl_url.clone(),
            private,
            false,
        ),
    );
    out.push(
        own_plan(
            TASK_HL_ACTION,
            messages.hl_action_channel.as_str(),
            "hl_action",
            messages.hl_url,
            Vec::new(),
            true,
        ),
    );
    out.push(
        public_plan(
            TASK_BINANCE_LOB,
            binance,
            "binance",
            "binance_lob",
            messages.binance_lob_url,
            two(messages.binance_bbo, messages.binance_depth),
        ),
    );
    out.push(
        public_plan(
            TASK_BINANCE_AGG_TRADE,
            binance,
            "binance",
            "binance_agg_trade",
            messages.binance_trades_url,
            one(messages.binance_trades),
        ),
    );
    out.push(
        public_plan(
            TASK_OKX_LOB,
            Venue::Okx,
            "okx",
            "okx_public_lob",
            messages.okx_lob_url,
            two(messages.okx_bbo, messages.okx_books),
        ),
    );
    out.push(
        public_plan(
            TASK_OKX_TRADES_ALL,
            Venue::Okx,
            "okx",
            "okx_trades_all",
            messages.okx_trades_url,
            one(messages.okx_trades),
        ),
    );
    out
}

} // verus!
