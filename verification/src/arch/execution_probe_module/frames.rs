//! What the frames of the exchanges say.
use vstd::prelude::*;
use crate::binary64::Binary64;
use crate::json;
use crate::json::{Json, compact, entry_f64, entry_u64, json_f64, json_u64};
use crate::text;
use crate::text::{owned, same};
use super::state::{BookLevel, BookState, OrderUpdate, ProbeSide, UserFill};

verus! {

/// The channel of a frame.
pub open spec fn channel_of(frame: Json) -> Option<Seq<char>> {
    let nested = match frame.path2("arg"@, "channel"@) {
        Some(inner) => inner.characters(),
        None => None,
    };
    if frame.entry_text("channel"@) is Some {
        frame.entry_text("channel"@)
    } else if nested is Some {
        nested
    } else {
        frame.entry_text("e"@)
    }
}

pub fn frame_channel(value: &Json) -> (r: Option<&str>)
    ensures
        match r {
            Some(channel) => channel_of(*value) == Some(channel@),
            None => channel_of(*value) is None,
        },
{
    if let Some(channel) = value.get_str("channel") {
        return Some(channel);
    }
    if let Some(inner) = value.follow2("arg", "channel") {
        if let Some(channel) = inner.as_str() {
            return Some(channel);
        }
    }
    value.get_str("e")
}

/// A time in seconds, milliseconds, microseconds or nanoseconds, told apart by
/// its size, in nanoseconds.
pub open spec fn in_nanoseconds(timestamp: u64) -> u64 {
    let scaled: int = if timestamp <= 9_999_999_999 {
        timestamp * 1_000_000_000
    } else if timestamp <= 9_999_999_999_999 {
        timestamp * 1_000_000
    } else if timestamp <= 9_999_999_999_999_999 {
        timestamp * 1_000
    } else {
        timestamp as int
    };
    if scaled > u64::MAX {
        u64::MAX
    } else {
        scaled as u64
    }
}

pub fn timestamp_to_ns(timestamp: u64) -> (r: u64)
    ensures
        r == in_nanoseconds(timestamp),
{
    let factor: u64 = if timestamp <= 9_999_999_999 {
        1_000_000_000
    } else if timestamp <= 9_999_999_999_999 {
        1_000_000
    } else if timestamp <= 9_999_999_999_999_999 {
        1_000
    } else {
        1
    };
    match timestamp.checked_mul(factor) {
        Some(ns) => ns,
        None => u64::MAX,
    }
}

/// A later time never gets an earlier number of nanoseconds, as long as both
/// are given in the same unit.
pub proof fn law_timestamps_keep_their_order(a: u64, b: u64)
    requires
        a <= b,
        b <= 9_999_999_999 || (9_999_999_999 < a && b <= 9_999_999_999_999) || (9_999_999_999_999
            < a && b <= 9_999_999_999_999_999) || 9_999_999_999_999_999 < a,
    ensures
        in_nanoseconds(a) <= in_nanoseconds(b),
{
}

/// A whole number at an optional place.
pub open spec fn whole_at(place: Option<Json>) -> Option<u64> {
    match place {
        Some(inner) => inner.as_whole(),
        None => None,
    }
}

fn u64_at(place: Option<&Json>) -> (r: Option<u64>)
    ensures
        match place {
            Some(inner) => r == inner.as_whole(),
            None => r is None,
        },
{
    match place {
        Some(inner) => json_u64(inner),
        None => None,
    }
}

/// The first of two numbers that is there.
pub open spec fn either(a: Option<u64>, b: Option<u64>) -> Option<u64> {
    if a is Some {
        a
    } else {
        b
    }
}

/// The time that the exchange put into a frame.
pub open spec fn exchange_time(frame: Json) -> Option<u64> {
    let time = either(
        whole_at(frame.path2("data"@, "time"@)),
        either(
            whole_at(frame.path3("data"@, "0"@, "time"@)),
            either(
                whole_at(frame.path3("data"@, "0"@, "ts"@)),
                either(
                    whole_at(frame.entry("E"@)),
                    either(whole_at(frame.entry("T"@)), whole_at(frame.entry("ts"@))),
                ),
            ),
        ),
    );
    match time {
        Some(timestamp) => Some(in_nanoseconds(timestamp)),
        None => None,
    }
}

pub fn exchange_timestamp_ns(value: &Json) -> (r: Option<u64>)
    ensures
        r == exchange_time(*value),
{
    let mut time = u64_at(value.follow2("data", "time"));
    if time.is_none() {
        time = u64_at(value.follow3("data", "0", "time"));
    }
    if time.is_none() {
        time = u64_at(value.follow3("data", "0", "ts"));
    }
    if time.is_none() {
        time = u64_at(value.get("E"));
    }
    if time.is_none() {
        time = u64_at(value.get("T"));
    }
    if time.is_none() {
        time = u64_at(value.get("ts"));
    }
    match time {
        Some(timestamp) => Some(timestamp_to_ns(timestamp)),
        None => None,
    }
}

/// A level with a price and a size.
pub open spec fn level_of(entry: Json) -> Option<BookLevel> {
    match (entry.entry_real("px"@), entry.entry_real("sz"@)) {
        (Some(price), Some(size)) => Some(
            BookLevel { price, size, order_count: entry.entry_whole("n"@) },
        ),
        _ => None,
    }
}

/// The levels of a list, without the entries that are none.
pub open spec fn levels_of(entries: Seq<Json>) -> Seq<BookLevel>
    decreases entries.len(),
{
    if entries.len() == 0 {
        Seq::empty()
    } else {
        match level_of(entries.last()) {
            Some(level) => levels_of(entries.drop_last()).push(level),
            None => levels_of(entries.drop_last()),
        }
    }
}

/// The levels at an optional place.
pub open spec fn levels_at(place: Option<Json>) -> Seq<BookLevel> {
    match place {
        Some(inner) => match inner.items() {
            Some(entries) => levels_of(entries),
            None => Seq::empty(),
        },
        None => Seq::empty(),
    }
}

/// The one level at an optional place.
pub open spec fn single_level(place: Option<Json>) -> Seq<BookLevel> {
    match place {
        Some(inner) => match level_of(inner) {
            Some(level) => seq![level],
            None => Seq::empty(),
        },
        None => Seq::empty(),
    }
}

/// The bids and the asks of a Hyperliquid frame: whole sides under `levels`, or
/// single best levels under `bbo`.
pub open spec fn hl_sides(frame: Json) -> Option<(Seq<BookLevel>, Seq<BookLevel>)> {
    match frame.entry("data"@) {
        Some(data) => {
            let levels = match data.entry("levels"@) {
                Some(inner) => if inner.items() is Some {
                    Some(inner)
                } else {
                    None
                },
                None => None,
            };
            match levels {
                Some(inner) => Some((levels_at(inner.item(0)), levels_at(inner.item(1)))),
                None => match data.entry("bbo"@) {
                    Some(bbo) => if bbo.items() is Some {
                        Some((single_level(bbo.item(0)), single_level(bbo.item(1))))
                    } else {
                        None
                    },
                    None => None,
                },
            }
        },
        None => None,
    }
}

/// The time of a Hyperliquid frame.
pub open spec fn hl_time(frame: Json) -> Option<u64> {
    match frame.entry("data"@) {
        Some(data) => match data.entry_whole("time"@) {
            Some(timestamp) => Some(in_nanoseconds(timestamp)),
            None => None,
        },
        None => None,
    }
}

fn parse_hl_level(value: &Json) -> (r: Option<BookLevel>)
    ensures
        r == level_of(*value),
{
    match (entry_f64(value, "px"), entry_f64(value, "sz")) {
        (Some(price), Some(size)) => Some(
            BookLevel { price, size, order_count: entry_u64(value, "n") },
        ),
        _ => None,
    }
}

fn parse_hl_levels(value: Option<&Json>) -> (r: Vec<BookLevel>)
    ensures
        match value {
            Some(inner) => r@ == levels_at(Some(*inner)),
            None => r@ == Seq::<BookLevel>::empty(),
        },
{
    let mut out: Vec<BookLevel> = Vec::new();
    if let Some(inner) = value {
        if let Some(entries) = inner.as_array() {
            let mut i: usize = 0;
            proof {
                assert(entries@.take(0) =~= Seq::<Json>::empty());
            }
            while i < entries.len()
                invariant
                    i <= entries@.len(),
                    out@ == levels_of(entries@.take(i as int)),
                decreases entries@.len() - i,
            {
                proof {
                    assert(entries@.take(i as int + 1).drop_last() =~= entries@.take(i as int));
                }
                if let Some(level) = parse_hl_level(&entries[i]) {
                    out.push(level);
                }
                i = i + 1;
            }
            proof {
                assert(entries@.take(entries@.len() as int) =~= entries@);
            }
        }
    }
    out
}

fn single(value: Option<&Json>) -> (r: Vec<BookLevel>)
    ensures
        match value {
            Some(inner) => r@ == single_level(Some(*inner)),
            None => r@ == Seq::<BookLevel>::empty(),
        },
{
    let mut out: Vec<BookLevel> = Vec::new();
    if let Some(inner) = value {
        if let Some(level) = parse_hl_level(inner) {
            out.push(level);
        }
    }
    out
}

pub fn parse_hl_book(value: &Json, received_monotonic_ns: u64) -> (r: Option<BookState>)
    ensures
        match r {
            Some(book) => hl_sides(*value) == Some((book.bids@, book.asks@))
                && book.received_monotonic_ns == received_monotonic_ns && book.exchange_ts_ns
                == hl_time(*value),
            None => hl_sides(*value) is None,
        },
{
    let data = match value.get("data") {
        Some(data) => data,
        None => {
            return None;
        },
    };
    let exchange_ts_ns = match entry_u64(data, "time") {
        Some(timestamp) => Some(timestamp_to_ns(timestamp)),
        None => None,
    };
    if let Some(levels) = data.get("levels") {
        if levels.as_array().is_some() {
            return Some(
                BookState {
                    received_monotonic_ns,
                    exchange_ts_ns,
                    bids: parse_hl_levels(levels.at(0)),
                    asks: parse_hl_levels(levels.at(1)),
                },
            );
        }
    }
    match data.get("bbo") {
        Some(bbo) => if bbo.as_array().is_some() {
            Some(
                BookState {
                    received_monotonic_ns,
                    exchange_ts_ns,
                    bids: single(bbo.at(0)),
                    asks: single(bbo.at(1)),
                },
            )
        } else {
            None
        },
        None => None,
    }
}

/// The side that a letter stands for.
pub open spec fn side_of(entry: Json) -> Option<ProbeSide> {
    if entry.entry_text("side"@) == Some("B"@) {
        Some(ProbeSide::Bid)
    } else if entry.entry_text("side"@) == Some("A"@) {
        Some(ProbeSide::Ask)
    } else {
        None
    }
}

fn parse_side(value: &Json) -> (r: Option<ProbeSide>)
    ensures
        r == side_of(*value),
{
    if value.has_text("side", "B") {
        Some(ProbeSide::Bid)
    } else if value.has_text("side", "A") {
        Some(ProbeSide::Ask)
    } else {
        None
    }
}

/// A trade: the side of its taker, its price and its size.
pub open spec fn trade_of(entry: Json) -> Option<(ProbeSide, Binary64, Binary64)> {
    match (side_of(entry), entry.entry_real("px"@), entry.entry_real("sz"@)) {
        (Some(side), Some(price), Some(size)) => Some((side, price, size)),
        _ => None,
    }
}

/// The trades of a list, without the entries that are none.
pub open spec fn trades_of(entries: Seq<Json>) -> Seq<(ProbeSide, Binary64, Binary64)>
    decreases entries.len(),
{
    if entries.len() == 0 {
        Seq::empty()
    } else {
        match trade_of(entries.last()) {
            Some(trade) => trades_of(entries.drop_last()).push(trade),
            None => trades_of(entries.drop_last()),
        }
    }
}

/// The entries under `data`.
pub open spec fn data_items(frame: Json) -> Seq<Json> {
    match frame.entry("data"@) {
        Some(data) => match data.items() {
            Some(entries) => entries,
            None => Seq::empty(),
        },
        None => Seq::empty(),
    }
}

pub fn parse_hl_trades(value: &Json) -> (r: Vec<(ProbeSide, Binary64, Binary64)>)
    ensures
        r@ == trades_of(data_items(*value)),
{
    let mut out: Vec<(ProbeSide, Binary64, Binary64)> = Vec::new();
    if let Some(data) = value.get("data") {
        if let Some(entries) = data.as_array() {
            let mut i: usize = 0;
            proof {
                assert(entries@.take(0) =~= Seq::<Json>::empty());
            }
            while i < entries.len()
                invariant
                    i <= entries@.len(),
                    out@ == trades_of(entries@.take(i as int)),
                decreases entries@.len() - i,
            {
                proof {
                    assert(entries@.take(i as int + 1).drop_last() =~= entries@.take(i as int));
                }
                let entry = &entries[i];
                if let (Some(side), Some(price), Some(size)) = (
                    parse_side(entry),
                    entry_f64(entry, "px"),
                    entry_f64(entry, "sz"),
                ) {
                    out.push((side, price, size));
                }
                i = i + 1;
            }
            proof {
                assert(entries@.take(entries@.len() as int) =~= entries@);
            }
        }
    }
    out
}

/// What an order update says.
pub ghost struct OrderUpdateView {
    pub coin: Seq<char>,
    pub side: ProbeSide,
    pub price: Binary64,
    pub remaining_size: Binary64,
    pub original_size: Binary64,
    pub oid: u64,
    pub cloid: Option<Seq<char>>,
    pub order_timestamp_ms: u64,
    pub status: Seq<char>,
    pub status_timestamp_ms: u64,
}

impl OrderUpdate {
    pub open spec fn view(self) -> OrderUpdateView {
        OrderUpdateView {
            coin: self.coin@,
            side: self.side,
            price: self.price,
            remaining_size: self.remaining_size,
            original_size: self.original_size,
            oid: self.oid,
            cloid: text::optional_text(self.cloid),
            order_timestamp_ms: self.order_timestamp_ms,
            status: self.status@,
            status_timestamp_ms: self.status_timestamp_ms,
        }
    }
}

/// A text that is not empty.
pub open spec fn filled_text(source: Option<Seq<char>>) -> Option<Seq<char>> {
    match source {
        Some(inner) => if inner.len() > 0 {
            Some(inner)
        } else {
            None
        },
        None => None,
    }
}

/// The order update of an entry, where nothing that it needs is missing.
pub open spec fn update_of(entry: Json) -> Option<OrderUpdateView> {
    match entry.entry("order"@) {
        Some(order) => if order.entry_text("coin"@) is Some && side_of(order) is Some
            && order.entry_real("limitPx"@) is Some && order.entry_real("sz"@) is Some
            && order.entry_real("origSz"@) is Some && order.entry_whole("oid"@) is Some
            && order.entry_whole("timestamp"@) is Some && entry.entry_text("status"@) is Some
            && entry.entry_whole("statusTimestamp"@) is Some {
            Some(
                OrderUpdateView {
                    coin: order.entry_text("coin"@)->0,
                    side: side_of(order)->0,
                    price: order.entry_real("limitPx"@)->0,
                    remaining_size: order.entry_real("sz"@)->0,
                    original_size: order.entry_real("origSz"@)->0,
                    oid: order.entry_whole("oid"@)->0,
                    cloid: filled_text(order.entry_text("cloid"@)),
                    order_timestamp_ms: order.entry_whole("timestamp"@)->0,
                    status: entry.entry_text("status"@)->0,
                    status_timestamp_ms: entry.entry_whole("statusTimestamp"@)->0,
                },
            )
        } else {
            None
        },
        None => None,
    }
}

/// The order updates of a list, without the entries that are none.
pub open spec fn updates_of(entries: Seq<Json>) -> Seq<OrderUpdateView>
    decreases entries.len(),
{
    if entries.len() == 0 {
        Seq::empty()
    } else {
        match update_of(entries.last()) {
            Some(update) => updates_of(entries.drop_last()).push(update),
            None => updates_of(entries.drop_last()),
        }
    }
}

/// The views of order updates.
pub open spec fn update_views(updates: Seq<OrderUpdate>) -> Seq<OrderUpdateView> {
    updates.map_values(|update: OrderUpdate| update@)
}

fn parse_cloid(order: &Json) -> (r: Option<String>)
    ensures
        text::optional_text(r) == filled_text(order.entry_text("cloid"@)),
{
    match order.get_str("cloid") {
        Some(cloid) => if cloid.is_empty() {
            None
        } else {
            Some(owned(cloid))
        },
        None => None,
    }
}

fn parse_order_update(entry: &Json) -> (r: Option<OrderUpdate>)
    ensures
        match r {
            Some(update) => update_of(*entry) == Some(update@),
            None => update_of(*entry) is None,
        },
{
    let order = match entry.get("order") {
        Some(order) => order,
        None => {
            return None;
        },
    };
    let names = (order.get_str("coin"), parse_side(order), entry.get_str("status"));
    let sizes = (entry_f64(order, "limitPx"), entry_f64(order, "sz"), entry_f64(order, "origSz"));
    let numbers = (
        entry_u64(order, "oid"),
        entry_u64(order, "timestamp"),
        entry_u64(entry, "statusTimestamp"),
    );
    match (names, sizes, numbers) {
        (
            (Some(coin), Some(side), Some(status)),
            (Some(price), Some(remaining_size), Some(original_size)),
            (Some(oid), Some(order_timestamp_ms), Some(status_timestamp_ms)),
        ) => Some(
            OrderUpdate {
                coin: owned(coin),
                side,
                price,
                remaining_size,
                original_size,
                oid,
                cloid: parse_cloid(order),
                order_timestamp_ms,
                status: owned(status),
                status_timestamp_ms,
            },
        ),
        _ => None,
    }
}

pub fn parse_order_updates(value: &Json) -> (r: Vec<OrderUpdate>)
    ensures
        update_views(r@) == updates_of(data_items(*value)),
{
    let mut out: Vec<OrderUpdate> = Vec::new();
    if let Some(data) = value.get("data") {
        if let Some(entries) = data.as_array() {
            let mut i: usize = 0;
            proof {
                assert(entries@.take(0) =~= Seq::<Json>::empty());
                assert(update_views(out@) =~= updates_of(entries@.take(0)));
            }
            while i < entries.len()
                invariant
                    i <= entries@.len(),
                    update_views(out@) == updates_of(entries@.take(i as int)),
                decreases entries@.len() - i,
            {
                proof {
                    assert(entries@.take(i as int + 1).drop_last() =~= entries@.take(i as int));
                }
                let ghost before = out@;
                if let Some(update) = parse_order_update(&entries[i]) {
                    out.push(update);
                    proof {
                        assert(update_views(out@) =~= update_views(before).push(update@));
                    }
                }
                i = i + 1;
            }
            proof {
                assert(entries@.take(entries@.len() as int) =~= entries@);
            }
            return out;
        }
    }
    proof {
        assert(update_views(out@) =~= updates_of(data_items(*value)));
    }
    out
}

/// What a fill says.
pub ghost struct UserFillView {
    pub oid: u64,
    pub trade_id: Seq<char>,
    pub coin: Seq<char>,
    pub side: ProbeSide,
    pub price: Binary64,
    pub size: Binary64,
    pub timestamp_ms: u64,
    pub fee: Option<Binary64>,
    pub fee_token: Option<Seq<char>>,
    pub raw: Seq<char>,
}

impl UserFill {
    pub open spec fn view(self) -> UserFillView {
        UserFillView {
            oid: self.oid,
            trade_id: self.trade_id@,
            coin: self.coin@,
            side: self.side,
            price: self.price,
            size: self.size,
            timestamp_ms: self.timestamp_ms,
            fee: self.fee,
            fee_token: text::optional_text(self.fee_token),
            raw: self.raw@,
        }
    }
}

/// The characters of a text, the digits of a whole number, or the compact text of
/// any other value.
pub open spec fn plain_text(value: Json) -> Seq<char> {
    match value {
        Json::Text(inner) => inner@,
        Json::Number(number) => if json::is_plain_whole(number@) {
            number@
        } else {
            json::compact_text(value)
        },
        _ => json::compact_text(value),
    }
}

/// Different numbers have different texts, so trades with different numbers have
/// different ids.
pub proof fn law_numbers_are_told_apart(a: String, n: u64, b: String, m: u64)
    requires
        a@ == text::digits(n as nat),
        b@ == text::digits(m as nat),
        n != m,
    ensures
        plain_text(Json::Number(a)) == text::digits(n as nat),
        plain_text(Json::Number(a)) != plain_text(Json::Number(b)),
{
    text::lemma_digits(n as nat);
    text::lemma_digits(m as nat);
    assert(json::is_plain_whole(a@));
    assert(json::is_plain_whole(b@));
    if a@ == b@ {
        text::law_digits_are_unique(n as nat, m as nat);
    }
}

fn value_to_string(value: &Json) -> (r: String)
    ensures
        r@ == plain_text(*value),
{
    match value.as_str() {
        Some(inner) => owned(inner),
        None => compact(value),
    }
}

/// The fill of an entry, where nothing that it needs is missing.
pub open spec fn fill_of(entry: Json) -> Option<UserFillView> {
    if entry.entry_whole("oid"@) is Some && entry.entry_text("coin"@) is Some && side_of(
        entry,
    ) is Some && entry.entry_real("px"@) is Some && entry.entry_real("sz"@) is Some
        && entry.entry_whole("time"@) is Some {
        Some(
            UserFillView {
                oid: entry.entry_whole("oid"@)->0,
                trade_id: match entry.entry("tid"@) {
                    Some(inner) => plain_text(inner),
                    None => Seq::empty(),
                },
                coin: entry.entry_text("coin"@)->0,
                side: side_of(entry)->0,
                price: entry.entry_real("px"@)->0,
                size: entry.entry_real("sz"@)->0,
                timestamp_ms: entry.entry_whole("time"@)->0,
                fee: entry.entry_real("fee"@),
                fee_token: entry.entry_text("feeToken"@),
                raw: json::compact_text(entry),
            },
        )
    } else {
        None
    }
}

/// The fills of a list, without the entries that are none.
pub open spec fn fills_of(entries: Seq<Json>) -> Seq<UserFillView>
    decreases entries.len(),
{
    if entries.len() == 0 {
        Seq::empty()
    } else {
        match fill_of(entries.last()) {
            Some(fill) => fills_of(entries.drop_last()).push(fill),
            None => fills_of(entries.drop_last()),
        }
    }
}

/// The views of fills.
pub open spec fn fill_views(fills: Seq<UserFill>) -> Seq<UserFillView> {
    fills.map_values(|fill: UserFill| fill@)
}

/// The entries of a fill frame: those under `fills`, or those under `data`.
pub open spec fn fill_items(frame: Json) -> Seq<Json> {
    match frame.path2("data"@, "fills"@) {
        Some(inner) => match inner.items() {
            Some(entries) => entries,
            None => Seq::empty(),
        },
        None => data_items(frame),
    }
}

fn parse_fill(entry: &Json) -> (r: Option<UserFill>)
    ensures
        match r {
            Some(fill) => fill_of(*entry) == Some(fill@),
            None => fill_of(*entry) is None,
        },
{
    let names = (entry.get_str("coin"), parse_side(entry));
    let sizes = (entry_f64(entry, "px"), entry_f64(entry, "sz"));
    let numbers = (entry_u64(entry, "oid"), entry_u64(entry, "time"));
    match (names, sizes, numbers) {
        (
            (Some(coin), Some(side)),
            (Some(price), Some(size)),
            (Some(oid), Some(timestamp_ms)),
        ) => {
            let trade_id = match entry.get("tid") {
                Some(inner) => value_to_string(inner),
                None => String::new(),
            };
            let fee_token = match entry.get_str("feeToken") {
                Some(token) => Some(owned(token)),
                None => None,
            };
            Some(
                UserFill {
                    oid,
                    trade_id,
                    coin: owned(coin),
                    side,
                    price,
                    size,
                    timestamp_ms,
                    fee: entry_f64(entry, "fee"),
                    fee_token,
                    raw: compact(entry),
                },
            )
        },
        _ => None,
    }
}

fn parse_fill_list(entries: &Vec<Json>) -> (r: Vec<UserFill>)
    ensures
        fill_views(r@) == fills_of(entries@),
{
    let mut out: Vec<UserFill> = Vec::new();
    let mut i: usize = 0;
    proof {
        assert(entries@.take(0) =~= Seq::<Json>::empty());
        assert(fill_views(out@) =~= fills_of(entries@.take(0)));
    }
    while i < entries.len()
        invariant
            i <= entries@.len(),
            fill_views(out@) == fills_of(entries@.take(i as int)),
        decreases entries@.len() - i,
    {
        proof {
            assert(entries@.take(i as int + 1).drop_last() =~= entries@.take(i as int));
        }
        let ghost before = out@;
        if let Some(fill) = parse_fill(&entries[i]) {
            out.push(fill);
            proof {
                assert(fill_views(out@) =~= fill_views(before).push(fill@));
            }
        }
        i = i + 1;
    }
    proof {
        assert(entries@.take(entries@.len() as int) =~= entries@);
    }
    out
}

pub fn parse_user_fills(value: &Json) -> (r: Vec<UserFill>)
    ensures
        fill_views(r@) == fills_of(fill_items(*value)),
{
    let place = match value.follow2("data", "fills") {
        Some(fills) => Some(fills),
        None => value.get("data"),
    };
    if let Some(list) = place {
        if let Some(entries) = list.as_array() {
            return parse_fill_list(entries);
        }
    }
    let none: Vec<UserFill> = Vec::new();
    proof {
        assert(fill_views(none@) =~= fills_of(fill_items(*value)));
    }
    none
}

/// The size of an entry's position, where the position is in the coin.
pub open spec fn position_of(entry: Json, coin: Seq<char>) -> Option<Binary64> {
    match entry.entry("position"@) {
        Some(position) => if position.entry_text("coin"@) == Some(coin) {
            position.entry_real("szi"@)
        } else {
            None
        },
        None => None,
    }
}

/// The first position in the coin.
pub open spec fn first_position(entries: Seq<Json>, coin: Seq<char>) -> Option<Binary64>
    decreases entries.len(),
{
    if entries.len() == 0 {
        None
    } else if position_of(entries[0], coin) is Some {
        position_of(entries[0], coin)
    } else {
        first_position(entries.skip(1), coin)
    }
}

/// The inventory that a clearinghouse frame states.
pub open spec fn inventory_of(frame: Json, coin: Seq<char>) -> Option<Binary64> {
    let place = match frame.path3("data"@, "clearinghouseState"@, "assetPositions"@) {
        Some(inner) => Some(inner),
        None => frame.path2("data"@, "assetPositions"@),
    };
    match place {
        Some(inner) => match inner.items() {
            Some(entries) => first_position(entries, coin),
            None => None,
        },
        None => None,
    }
}

fn parse_position(entry: &Json, coin: &str) -> (r: Option<Binary64>)
    ensures
        r == position_of(*entry, coin@),
{
    match entry.get("position") {
        Some(position) => if position.has_text("coin", coin) {
            entry_f64(position, "szi")
        } else {
            None
        },
        None => None,
    }
}

pub fn parse_xyz_inventory(value: &Json, coin: &str) -> (r: Option<Binary64>)
    ensures
        r == inventory_of(*value, coin@),
{
    let place = match value.follow3("data", "clearinghouseState", "assetPositions") {
        Some(inner) => Some(inner),
        None => value.follow2("data", "assetPositions"),
    };
    if let Some(inner) = place {
        if let Some(entries) = inner.as_array() {
            let mut i: usize = 0;
            proof {
                assert(entries@.skip(0) =~= entries@);
            }
            while i < entries.len()
                invariant
                    i <= entries@.len(),
                    inventory_of(*value, coin@) == first_position(entries@.skip(i as int), coin@),
                decreases entries@.len() - i,
            {
                proof {
                    assert(entries@.skip(i as int).skip(1) =~= entries@.skip(i as int + 1));
                }
                let size = parse_position(&entries[i], coin);
                if size.is_some() {
                    return size;
                }
                i = i + 1;
            }
        }
    }
    None
}

/// The best prices of a Binance book ticker.
pub open spec fn binance_quote(frame: Json) -> Option<(Binary64, Binary64)> {
    if frame.entry_text("e"@) == Some("bookTicker"@) {
        match (frame.entry_real("b"@), frame.entry_real("a"@)) {
            (Some(bid), Some(ask)) => Some((bid, ask)),
            _ => None,
        }
    } else {
        None
    }
}

pub fn parse_binance_bbo(value: &Json) -> (r: Option<(Binary64, Binary64)>)
    ensures
        r == binance_quote(*value),
{
    if !value.has_text("e", "bookTicker") {
        return None;
    }
    match (entry_f64(value, "b"), entry_f64(value, "a")) {
        (Some(bid), Some(ask)) => Some((bid, ask)),
        _ => None,
    }
}

/// The price of the first level of a side.
pub open spec fn first_price(row: Json, side: Seq<char>) -> Option<Binary64> {
    match row.entry(side) {
        Some(levels) => match levels.item(0) {
            Some(level) => match level.item(0) {
                Some(price) => price.as_real(),
                None => None,
            },
            None => None,
        },
        None => None,
    }
}

fn parse_first_price(row: &Json, side: &str) -> (r: Option<Binary64>)
    ensures
        r == first_price(*row, side@),
{
    match row.get(side) {
        Some(levels) => match levels.at(0) {
            Some(level) => match level.at(0) {
                Some(price) => json_f64(price),
                None => None,
            },
            None => None,
        },
        None => None,
    }
}

/// The channel that an OKX frame names.
pub open spec fn okx_channel(frame: Json) -> Option<Seq<char>> {
    match frame.path2("arg"@, "channel"@) {
        Some(inner) => inner.characters(),
        None => None,
    }
}

/// Whether an OKX frame names the channel.
pub fn is_okx_channel(value: &Json, channel: &str) -> (r: bool)
    ensures
        r == (okx_channel(*value) == Some(channel@)),
{
    match value.follow2("arg", "channel") {
        Some(inner) => match inner.as_str() {
            Some(name) => same(name, channel),
            None => false,
        },
        None => false,
    }
}

/// The best prices of an OKX frame.
pub open spec fn okx_quote(frame: Json) -> Option<(Binary64, Binary64)> {
    if okx_channel(frame) == Some("bbo-tbt"@) {
        match frame.path2("data"@, "0"@) {
            Some(row) => match (first_price(row, "bids"@), first_price(row, "asks"@)) {
                (Some(bid), Some(ask)) => Some((bid, ask)),
                _ => None,
            },
            None => None,
        }
    } else {
        None
    }
}

pub fn parse_okx_bbo(value: &Json) -> (r: Option<(Binary64, Binary64)>)
    ensures
        r == okx_quote(*value),
{
    if !is_okx_channel(value, "bbo-tbt") {
        return None;
    }
    match value.follow2("data", "0") {
        Some(row) => match (parse_first_price(row, "bids"), parse_first_price(row, "asks")) {
            (Some(bid), Some(ask)) => Some((bid, ask)),
            _ => None,
        },
        None => None,
    }
}

} // verus!
