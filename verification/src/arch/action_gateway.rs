//! Orders on their way to the exchange, and its answers.
//!
//! The gateway numbers requests, keeps the nonces apart, says what is to be
//! sent and reads what comes back. It takes no decision of its own.
use extrema_infra::arch::market_assets::exchange::prelude::{HyperliquidAuth, HyperliquidOrderAction};
use vstd::prelude::*;
use crate::arch::execution_probe_module::state::{ProbeSide, duplicate_text};
use crate::arch::execution_probe_module::utils;
use crate::arch::execution_probe_module::utils::sha256_hex;
use crate::arch::schema::EventEnvelope;
use crate::arch::signing;
use crate::arch::signing::{
    cancel_text, infra_message, order_action, order_text, post_message, sign_cancel, sign_order,
};
use crate::json;
use crate::json::{Json, compact, error_text, json_u64};
use crate::text;
use crate::text::{owned, same};

verus! {

/// What an action is about.
#[derive(Debug)]
pub struct ActionContext {
    pub action_id: String,
    pub probe_id: String,
    pub decision_id: String,
    pub intent_id: String,
    pub cloid: Option<String>,
    pub oid: Option<u64>,
    pub side: Option<ProbeSide>,
    pub price: Option<String>,
    pub size: Option<String>,
    pub remaining_size: Option<String>,
}

/// The kinds of actions.
#[derive(Clone, Copy, Debug, PartialEq, Eq, Structural)]
pub enum ActionKind {
    /// An order that only adds liquidity.
    Place,
    Cancel,
    /// A reduce-only order that fills at once or not at all.
    Ioc,
}

impl ActionKind {
    pub open spec fn type_text(self) -> Seq<char> {
        match self {
            ActionKind::Place => "place"@,
            ActionKind::Cancel => "cancel"@,
            ActionKind::Ioc => "ioc"@,
        }
    }

    pub open spec fn force_text(self) -> Seq<char> {
        match self {
            ActionKind::Place => "Alo"@,
            ActionKind::Cancel => "Gtc"@,
            ActionKind::Ioc => "Ioc"@,
        }
    }

    pub fn action_type(self) -> (r: &'static str)
        ensures
            r@ == self.type_text(),
    {
        match self {
            ActionKind::Place => "place",
            ActionKind::Cancel => "cancel",
            ActionKind::Ioc => "ioc",
        }
    }

    pub fn time_in_force(self) -> (r: &'static str)
        ensures
            r@ == self.force_text(),
    {
        match self {
            ActionKind::Place => "Alo",
            ActionKind::Cancel => "Gtc",
            ActionKind::Ioc => "Ioc",
        }
    }

    /// Only a flattening order is reduce-only.
    pub open spec fn is_reducing(self) -> bool {
        self == ActionKind::Ioc
    }

    pub fn reduce_only(self) -> (r: bool)
        ensures
            r == self.is_reducing(),
    {
        match self {
            ActionKind::Ioc => true,
            _ => false,
        }
    }
}

/// The record of an action.
#[derive(Debug)]
pub struct ActionRecord {
    pub envelope: EventEnvelope,
    pub action_id: String,
    pub probe_id: String,
    pub decision_id: String,
    pub intent_id: String,
    pub request_id: u64,
    pub nonce: u64,
    pub action_type: String,
    pub transport: String,
    pub cloid: Option<String>,
    pub oid: Option<u64>,
    pub side: Option<String>,
    pub price: Option<String>,
    pub size: Option<String>,
    pub remaining_size: Option<String>,
    pub time_in_force: Option<String>,
    pub reduce_only: bool,
    pub priority_fee: u64,
    pub expires_after: Option<u64>,
    pub sign_start_ns: u64,
    pub sign_end_ns: u64,
    pub command_enqueue_ns: u64,
    pub socket_write_ns: Option<u64>,
    pub raw_outbound_json: String,
    pub payload_hash: String,
}

/// An action that was written to the socket.
#[derive(Debug)]
pub struct SentAction {
    pub request_id: u64,
    pub nonce: u64,
    pub action_id: String,
    pub socket_write_monotonic_ns: u64,
    pub record: ActionRecord,
}

/// When the steps of a dispatch were taken.
#[derive(Clone, Copy, Debug, PartialEq, Eq, Structural)]
pub struct DispatchTimes {
    pub sign_start_ns: u64,
    pub sign_end_ns: u64,
    pub command_enqueue_ns: u64,
    pub socket_write_ns: u64,
}

/// Why an action or an answer was not accepted.
#[derive(Debug)]
pub enum GatewayError {
    PlaceWithoutSide,
    PlaceWithoutPrice,
    PlaceWithoutSize,
    IocWithoutSide,
    IocWithoutPrice,
    IocWithoutSize,
    ResponseWithoutId,
    ResponseWithoutPayload,
    /// The payload is not marked as fine; holds its compact text.
    ResponseNotOk(String),
    ResponseWithoutStatuses,
    PlaceWithoutStatus,
    /// Holds the compact text of the status.
    UnexpectedPlace(String),
    CancelWithoutStatus,
    /// Holds the message of the exchange.
    CancelRefused(String),
    /// Holds the compact text of the status.
    UnexpectedCancel(String),
    /// The client refused the order; holds its message.
    OrderRefused(String),
    /// The client did not sign the action; holds its message.
    NotSigned(String),
    /// The action could not be written; holds the message.
    NotWritten(String),
}

impl GatewayError {
    /// What the error says.
    pub open spec fn text(self) -> Seq<char> {
        match self {
            GatewayError::PlaceWithoutSide => "place action requires side"@,
            GatewayError::PlaceWithoutPrice => "place action requires price"@,
            GatewayError::PlaceWithoutSize => "place action requires size"@,
            GatewayError::IocWithoutSide => "IOC action requires side"@,
            GatewayError::IocWithoutPrice => "IOC action requires price"@,
            GatewayError::IocWithoutSize => "IOC action requires size"@,
            GatewayError::ResponseWithoutId => "HL post response missing data.id"@,
            GatewayError::ResponseWithoutPayload => "HL post response missing payload"@,
            GatewayError::ResponseNotOk(payload) => "HL action response not ok: "@ + payload@,
            GatewayError::ResponseWithoutStatuses => "HL action response missing statuses"@,
            GatewayError::PlaceWithoutStatus => "HL place response has no status"@,
            GatewayError::UnexpectedPlace(status) => "unexpected HL place response: "@ + status@,
            GatewayError::CancelWithoutStatus => "HL cancel response has no status"@,
            GatewayError::CancelRefused(message) => message@,
            GatewayError::UnexpectedCancel(status) => "unexpected HL cancel response: "@ + status@,
            GatewayError::OrderRefused(message) => message@,
            GatewayError::NotSigned(message) => message@,
            GatewayError::NotWritten(message) => "serialize Hyperliquid WS action: "@ + message@,
        }
    }

    pub fn message(&self) -> (r: String)
        ensures
            r@ == self.text(),
    {
        match self {
            GatewayError::PlaceWithoutSide => owned("place action requires side"),
            GatewayError::PlaceWithoutPrice => owned("place action requires price"),
            GatewayError::PlaceWithoutSize => owned("place action requires size"),
            GatewayError::IocWithoutSide => owned("IOC action requires side"),
            GatewayError::IocWithoutPrice => owned("IOC action requires price"),
            GatewayError::IocWithoutSize => owned("IOC action requires size"),
            GatewayError::ResponseWithoutId => owned("HL post response missing data.id"),
            GatewayError::ResponseWithoutPayload => owned("HL post response missing payload"),
            GatewayError::ResponseNotOk(payload) => {
                owned("HL action response not ok: ").concat(payload.as_str())
            },
            GatewayError::ResponseWithoutStatuses => owned("HL action response missing statuses"),
            GatewayError::PlaceWithoutStatus => owned("HL place response has no status"),
            GatewayError::UnexpectedPlace(status) => {
                owned("unexpected HL place response: ").concat(status.as_str())
            },
            GatewayError::CancelWithoutStatus => owned("HL cancel response has no status"),
            GatewayError::CancelRefused(message) => message.clone(),
            GatewayError::UnexpectedCancel(status) => {
                owned("unexpected HL cancel response: ").concat(status.as_str())
            },
            GatewayError::OrderRefused(message) => message.clone(),
            GatewayError::NotSigned(message) => message.clone(),
            GatewayError::NotWritten(message) => {
                owned("serialize Hyperliquid WS action: ").concat(message.as_str())
            },
        }
    }
}

/// The counters of the gateway and the asset that it trades.
#[derive(Debug)]
pub struct ActionGateway {
    asset_id: u32,
    next_request_id: u64,
    last_nonce: u64,
}

/// `n + 1`, within the range of `u64`.
pub open spec fn successor(n: u64) -> u64 {
    if n == u64::MAX {
        n
    } else {
        (n + 1) as u64
    }
}

/// The nonce after `nonce`: the time in milliseconds, but above `nonce`.
pub open spec fn nonce_after(nonce: u64, now_ms: u64) -> u64 {
    if now_ms > successor(nonce) {
        now_ms
    } else {
        successor(nonce)
    }
}

impl ActionGateway {
    /// The asset that is traded.
    pub closed spec fn asset(self) -> u32 {
        self.asset_id
    }

    /// The number of the next request.
    pub closed spec fn next_request(self) -> u64 {
        self.next_request_id
    }

    /// The last nonce that was given out.
    pub closed spec fn nonce(self) -> u64 {
        self.last_nonce
    }

    pub fn new(asset_id: u32) -> (r: Self)
        ensures
            r.asset() == asset_id,
            r.next_request() == 1,
            r.nonce() == 0,
    {
        ActionGateway { asset_id, next_request_id: 1, last_nonce: 0 }
    }

    pub fn asset_id(&self) -> (r: u32)
        ensures
            r == self.asset(),
    {
        self.asset_id
    }

    /// The next nonce: the time in milliseconds, but above every nonce before.
    fn next_nonce(&mut self, now_ms: u64) -> (r: u64)
        ensures
            r == nonce_after(old(self).nonce(), now_ms),
            final(self).nonce() == r,
            final(self).asset() == old(self).asset(),
            final(self).next_request() == old(self).next_request(),
    {
        let above = self.last_nonce.saturating_add(1);
        self.last_nonce = if now_ms > above {
            now_ms
        } else {
            above
        };
        self.last_nonce
    }

    /// `after` follows when a request was numbered.
    pub open spec fn has_begun(
        self,
        after: ActionGateway,
        request_id: u64,
        nonce: u64,
        now_ms: u64,
    ) -> bool {
        &&& request_id == self.next_request()
        &&& nonce == nonce_after(self.nonce(), now_ms)
        &&& after.next_request() == successor(self.next_request())
        &&& after.nonce() == nonce
        &&& after.asset() == self.asset()
    }

    /// Numbers a request: its id, and the nonce with which it is signed.
    pub fn begin_request(&mut self, now_ms: u64) -> (r: (u64, u64))
        ensures
            old(self).has_begun(*final(self), r.0, r.1, now_ms),
    {
        let request_id = self.next_request_id;
        self.next_request_id = self.next_request_id.saturating_add(1);
        let nonce = self.next_nonce(now_ms);
        (request_id, nonce)
    }

    /// What the client makes of the order that a context describes.
    pub open spec fn ordered(self, context: ActionContext, kind: ActionKind) -> Result<
        HyperliquidOrderAction,
        Seq<char>,
    > {
        signing::hl_order(
            self.asset(),
            context.side->0 == ProbeSide::Bid,
            context.size->0@,
            context.price->0@,
            kind == ActionKind::Place,
            kind.is_reducing(),
            text::optional_text(context.cloid),
        )
    }

    /// The action is the order that a context describes. Where the numbers of the
    /// context are plain, the text of the order is known.
    pub open spec fn is_order(
        self,
        action: HyperliquidOrderAction,
        context: ActionContext,
        kind: ActionKind,
    ) -> bool {
        &&& self.ordered(context, kind) == Ok::<HyperliquidOrderAction, Seq<char>>(action)
        &&& signing::is_plain_order(
            context.size->0@,
            context.price->0@,
            text::optional_text(context.cloid),
        ) ==> signing::hl_order_text(action) is Ok && signing::hl_order_text(action)->Ok_0
            == signing::order_json(
            self.asset(),
            context.side->0 == ProbeSide::Bid,
            context.size->0@,
            context.price->0@,
            kind == ActionKind::Place,
            kind.is_reducing(),
            text::optional_text(context.cloid),
        )
    }

    /// A context that describes an order.
    pub open spec fn is_complete(context: ActionContext) -> bool {
        context.side is Some && context.price is Some && context.size is Some
    }

    /// The client order id is missing, or of the accepted form.
    pub open spec fn has_sound_cloid(context: ActionContext) -> bool {
        context.cloid is None || utils::is_cloid(context.cloid->0@)
    }

    fn order(
        &self,
        side: ProbeSide,
        price: &String,
        size: &String,
        cloid: &Option<String>,
        kind: ActionKind,
    ) -> (r: Result<HyperliquidOrderAction, GatewayError>)
        ensures
            match r {
                Ok(action) => {
                    &&& signing::hl_order(
                        self.asset(),
                        side == ProbeSide::Bid,
                        size@,
                        price@,
                        kind == ActionKind::Place,
                        kind.is_reducing(),
                        text::optional_text(*cloid),
                    ) == Ok::<HyperliquidOrderAction, Seq<char>>(action)
                    &&& signing::is_plain_order(size@, price@, text::optional_text(*cloid))
                        ==> signing::hl_order_text(action) is Ok && signing::hl_order_text(
                        action,
                    )->Ok_0 == signing::order_json(
                        self.asset(),
                        side == ProbeSide::Bid,
                        size@,
                        price@,
                        kind == ActionKind::Place,
                        kind.is_reducing(),
                        text::optional_text(*cloid),
                    )
                },
                Err(GatewayError::OrderRefused(message)) => {
                    &&& cloid is Some
                    &&& !utils::is_cloid(cloid->0@)
                    &&& signing::hl_order(
                        self.asset(),
                        side == ProbeSide::Bid,
                        size@,
                        price@,
                        kind == ActionKind::Place,
                        kind.is_reducing(),
                        text::optional_text(*cloid),
                    ) == Err::<HyperliquidOrderAction, Seq<char>>(message@)
                },
                Err(_) => false,
            },
    {
        let made = order_action(
            self.asset_id,
            side == ProbeSide::Bid,
            size.clone(),
            price.clone(),
            kind == ActionKind::Place,
            kind.reduce_only(),
            duplicate_text(cloid),
        );
        match made {
            Ok(action) => Ok(action),
            Err(error) => Err(GatewayError::OrderRefused(infra_message(&error))),
        }
    }

    /// The order of a placement: one that only adds liquidity. It is refused only
    /// for its client order id.
    pub fn place_alo(&self, context: &ActionContext) -> (r: Result<
        HyperliquidOrderAction,
        GatewayError,
    >)
        ensures
            match r {
                Ok(action) => Self::is_complete(*context) && self.is_order(
                    action,
                    *context,
                    ActionKind::Place,
                ),
                Err(GatewayError::PlaceWithoutSide) => context.side is None,
                Err(GatewayError::PlaceWithoutPrice) => context.side is Some
                    && context.price is None,
                Err(GatewayError::PlaceWithoutSize) => context.side is Some && context.price is Some
                    && context.size is None,
                Err(GatewayError::OrderRefused(message)) => Self::is_complete(*context)
                    && !Self::has_sound_cloid(*context) && self.ordered(*context, ActionKind::Place)
                    == Err::<HyperliquidOrderAction, Seq<char>>(message@),
                Err(_) => false,
            },
    {
        let side = match context.side {
            Some(side) => side,
            None => {
                return Err(GatewayError::PlaceWithoutSide);
            },
        };
        match (&context.price, &context.size) {
            (Some(price), Some(size)) => {
                self.order(side, price, size, &context.cloid, ActionKind::Place)
            },
            (None, _) => Err(GatewayError::PlaceWithoutPrice),
            _ => Err(GatewayError::PlaceWithoutSize),
        }
    }

    /// The order of a flattening: reduce-only, filled at once or not at all. It
    /// is refused only for its client order id.
    pub fn flatten_ioc(&self, context: &ActionContext) -> (r: Result<
        HyperliquidOrderAction,
        GatewayError,
    >)
        ensures
            match r {
                Ok(action) => Self::is_complete(*context) && self.is_order(
                    action,
                    *context,
                    ActionKind::Ioc,
                ),
                Err(GatewayError::IocWithoutSide) => context.side is None,
                Err(GatewayError::IocWithoutPrice) => context.side is Some && context.price is None,
                Err(GatewayError::IocWithoutSize) => context.side is Some && context.price is Some
                    && context.size is None,
                Err(GatewayError::OrderRefused(message)) => Self::is_complete(*context)
                    && !Self::has_sound_cloid(*context) && self.ordered(*context, ActionKind::Ioc)
                    == Err::<HyperliquidOrderAction, Seq<char>>(message@),
                Err(_) => false,
            },
    {
        let side = match context.side {
            Some(side) => side,
            None => {
                return Err(GatewayError::IocWithoutSide);
            },
        };
        match (&context.price, &context.size) {
            (Some(price), Some(size)) => {
                self.order(side, price, size, &context.cloid, ActionKind::Ioc)
            },
            (None, _) => Err(GatewayError::IocWithoutPrice),
            _ => Err(GatewayError::IocWithoutSize),
        }
    }
}

/// Who signs the actions.
#[derive(Debug)]
pub struct ActionSigner {
    pub auth: HyperliquidAuth,
    pub owner_address: String,
    pub vault_address: Option<String>,
}

/// A message that posts an action under a signature.
pub open spec fn posts(
    message: Seq<char>,
    request_id: u64,
    action: Seq<char>,
    nonce: u64,
    signature: signing::SignatureView,
    vault: Option<String>,
) -> bool {
    exists|written: signing::Signature|
        written@ == signature && message == #[trigger] signing::post_text(
            request_id,
            action,
            nonce,
            written,
            vault,
        )
}

impl ActionSigner {
    /// The account whose orders are followed: the vault where there is one, else
    /// the owner.
    pub open spec fn account(self) -> Seq<char> {
        match self.vault_address {
            Some(vault) => vault@,
            None => self.owner_address@,
        }
    }

    pub fn account_address(&self) -> (r: String)
        ensures
            r@ == self.account(),
    {
        match &self.vault_address {
            Some(vault) => vault.clone(),
            None => self.owner_address.clone(),
        }
    }

    /// The signature of an order.
    pub open spec fn order_signature(self, action: HyperliquidOrderAction, nonce: u64) -> Result<
        signing::SignatureView,
        Seq<char>,
    > {
        signing::hl_order_signature(
            self.auth,
            action,
            nonce,
            text::optional_text(self.vault_address),
        )
    }

    /// The signature of a cancellation.
    pub open spec fn cancel_signature(self, asset_id: u32, oid: u64, nonce: u64) -> Result<
        signing::SignatureView,
        Seq<char>,
    > {
        signing::hl_cancel_signature(
            self.auth,
            asset_id,
            oid,
            nonce,
            text::optional_text(self.vault_address),
        )
    }

    /// The message that posts an order.
    pub fn signed_order(&self, request_id: u64, action: &HyperliquidOrderAction, nonce: u64) -> (r:
        Result<String, GatewayError>)
        ensures
            match r {
                Ok(message) => {
                    &&& self.order_signature(*action, nonce) is Ok
                    &&& signing::hl_order_text(*action) is Ok
                    &&& posts(
                        message@,
                        request_id,
                        signing::hl_order_text(*action)->Ok_0,
                        nonce,
                        self.order_signature(*action, nonce)->Ok_0,
                        self.vault_address,
                    )
                },
                Err(GatewayError::NotSigned(message)) => self.order_signature(*action, nonce)
                    == Err::<signing::SignatureView, Seq<char>>(message@),
                Err(GatewayError::NotWritten(message)) => self.order_signature(*action, nonce) is Ok
                    && signing::hl_order_text(*action) == Err::<Seq<char>, Seq<char>>(message@),
                Err(_) => false,
            },
    {
        let signature = match sign_order(&self.auth, action, nonce, &self.vault_address) {
            Ok(signature) => signature,
            Err(error) => {
                return Err(GatewayError::NotSigned(infra_message(&error)));
            },
        };
        match order_text(action) {
            Ok(written) => Ok(
                post_message(request_id, written.as_str(), nonce, &signature, &self.vault_address),
            ),
            Err(error) => Err(GatewayError::NotWritten(error_text(&error))),
        }
    }

    /// The message that posts a cancellation.
    pub fn signed_cancel(&self, request_id: u64, asset_id: u32, oid: u64, nonce: u64) -> (r: Result<
        String,
        GatewayError,
    >)
        ensures
            match r {
                Ok(message) => self.cancel_signature(asset_id, oid, nonce) is Ok && posts(
                    message@,
                    request_id,
                    signing::cancellation(asset_id, oid),
                    nonce,
                    self.cancel_signature(asset_id, oid, nonce)->Ok_0,
                    self.vault_address,
                ),
                Err(GatewayError::NotSigned(message)) => self.cancel_signature(asset_id, oid, nonce)
                    == Err::<signing::SignatureView, Seq<char>>(message@),
                Err(_) => false,
            },
    {
        let signature = match sign_cancel(&self.auth, asset_id, oid, nonce, &self.vault_address) {
            Ok(signature) => signature,
            Err(error) => {
                return Err(GatewayError::NotSigned(infra_message(&error)));
            },
        };
        match cancel_text(asset_id, oid) {
            Ok(written) => Ok(
                post_message(request_id, written.as_str(), nonce, &signature, &self.vault_address),
            ),
            Err(error) => Err(GatewayError::NotWritten(error_text(&error))),
        }
    }
}

/// Nonces rise from request to request, whatever the clock shows, and so do the
/// numbers of the requests, as long as there are numbers left.
pub proof fn law_requests_are_kept_apart(nonce: u64, next_request: u64, now_ms: u64)
    requires
        nonce < u64::MAX,
        next_request < u64::MAX,
    ensures
        nonce_after(nonce, now_ms) > nonce,
        successor(next_request) > next_request,
{
}

impl SentAction {
    /// The action and its record, as they follow from the context, the numbers
    /// and the text that was sent.
    pub open spec fn tells_of(
        self,
        envelope: EventEnvelope,
        context: ActionContext,
        kind: ActionKind,
        request_id: u64,
        nonce: u64,
        times: DispatchTimes,
        raw: String,
    ) -> bool {
        &&& self.request_id == request_id
        &&& self.nonce == nonce
        &&& self.action_id == context.action_id
        &&& self.socket_write_monotonic_ns == times.socket_write_ns
        &&& self.record.envelope == envelope
        &&& self.record.action_id == context.action_id
        &&& self.record.probe_id == context.probe_id
        &&& self.record.decision_id == context.decision_id
        &&& self.record.intent_id == context.intent_id
        &&& self.record.request_id == request_id
        &&& self.record.nonce == nonce
        &&& self.record.action_type@ == kind.type_text()
        &&& self.record.transport@ == "ws"@
        &&& self.record.cloid == context.cloid
        &&& self.record.oid == context.oid
        &&& text::optional_text(self.record.side) == (match context.side {
            Some(side) => Some(side.action_side()),
            None => None,
        })
        &&& self.record.price == context.price
        &&& self.record.size == context.size
        &&& self.record.remaining_size == context.remaining_size
        &&& text::optional_text(self.record.time_in_force) == Some(kind.force_text())
        &&& self.record.reduce_only == kind.is_reducing()
        &&& self.record.priority_fee == 0
        &&& self.record.expires_after is None
        &&& self.record.sign_start_ns == times.sign_start_ns
        &&& self.record.sign_end_ns == times.sign_end_ns
        &&& self.record.command_enqueue_ns == times.command_enqueue_ns
        &&& self.record.socket_write_ns == Some(times.socket_write_ns)
        &&& self.record.raw_outbound_json == raw
        &&& self.record.payload_hash@ == text::hex(
            utils::sha256_digest(vstd::utf8::encode_utf8(raw@)),
        )
    }
}

/// The action that was sent, and its record.
pub fn sent_action(
    envelope: EventEnvelope,
    context: ActionContext,
    kind: ActionKind,
    request_id: u64,
    nonce: u64,
    times: DispatchTimes,
    raw_outbound_json: String,
) -> (r: SentAction)
    ensures
        r.tells_of(envelope, context, kind, request_id, nonce, times, raw_outbound_json),
{
    let payload_hash = sha256_hex(raw_outbound_json.as_str().as_bytes());
    let side = match context.side {
        Some(side) => Some(owned(side.as_action_side())),
        None => None,
    };
    let action_id = context.action_id.clone();
    let record = ActionRecord {
        envelope,
        action_id: context.action_id,
        probe_id: context.probe_id,
        decision_id: context.decision_id,
        intent_id: context.intent_id,
        request_id,
        nonce,
        action_type: owned(kind.action_type()),
        transport: owned("ws"),
        cloid: context.cloid,
        oid: context.oid,
        side,
        price: context.price,
        size: context.size,
        remaining_size: context.remaining_size,
        time_in_force: Some(owned(kind.time_in_force())),
        reduce_only: kind.reduce_only(),
        priority_fee: 0,
        expires_after: None,
        sign_start_ns: times.sign_start_ns,
        sign_end_ns: times.sign_end_ns,
        command_enqueue_ns: times.command_enqueue_ns,
        socket_write_ns: Some(times.socket_write_ns),
        raw_outbound_json,
        payload_hash,
    };
    SentAction {
        request_id,
        nonce,
        action_id,
        socket_write_monotonic_ns: times.socket_write_ns,
        record,
    }
}

/// How the exchange answered a placement.
#[derive(Debug, PartialEq, Eq)]
pub enum PlaceOutcome {
    Resting(u64),
    Filled(u64),
    Rejected(String),
}

impl PlaceOutcome {
    /// The same outcome.
    pub fn duplicate(&self) -> (r: PlaceOutcome)
        ensures
            r == *self,
    {
        match self {
            PlaceOutcome::Resting(oid) => PlaceOutcome::Resting(*oid),
            PlaceOutcome::Filled(oid) => PlaceOutcome::Filled(*oid),
            PlaceOutcome::Rejected(reason) => PlaceOutcome::Rejected(reason.clone()),
        }
    }
}

/// The request that an answer belongs to.
pub open spec fn response_id(frame: Json) -> Option<u64> {
    match frame.path2("data"@, "id"@) {
        Some(id) => id.as_whole(),
        None => None,
    }
}

/// The frame is an answer.
pub open spec fn is_post(frame: Json) -> bool {
    frame.entry_text("channel"@) == Some("post"@)
}

/// The request that an answer belongs to. Frames of other channels are none.
pub fn parse_post_frame(value: &Json) -> (r: Result<Option<(u64, &Json)>, GatewayError>)
    ensures
        match r {
            Ok(Some((request_id, frame))) => is_post(*value) && response_id(*value) == Some(
                request_id,
            ) && *frame == *value,
            Ok(None) => !is_post(*value),
            Err(GatewayError::ResponseWithoutId) => is_post(*value) && response_id(*value) is None,
            Err(_) => false,
        },
{
    if !value.has_text("channel", "post") {
        return Ok(None);
    }
    let id = match value.follow2("data", "id") {
        Some(id) => json_u64(id),
        None => None,
    };
    match id {
        Some(request_id) => Ok(Some((request_id, value))),
        None => Err(GatewayError::ResponseWithoutId),
    }
}

/// The payload of an answer.
pub open spec fn payload_of(frame: Json) -> Option<Json> {
    frame.path3("data"@, "response"@, "payload"@)
}

/// The payload is marked as fine.
pub open spec fn is_ok(payload: Json) -> bool {
    payload.entry_text("status"@) == Some("ok"@)
}

/// The statuses in a payload.
pub open spec fn statuses_of(payload: Json) -> Option<Seq<Json>> {
    match payload.path3("response"@, "data"@, "statuses"@) {
        Some(statuses) => statuses.items(),
        None => None,
    }
}

/// An error that every answer can have.
pub open spec fn is_response_error(error: GatewayError, frame: Json) -> bool {
    match error {
        GatewayError::ResponseWithoutPayload => payload_of(frame) is None,
        GatewayError::ResponseNotOk(payload) => payload_of(frame) is Some && !is_ok(
            payload_of(frame)->0,
        ) && payload@ == json::compact_text(payload_of(frame)->0),
        GatewayError::ResponseWithoutStatuses => payload_of(frame) is Some && is_ok(
            payload_of(frame)->0,
        ) && statuses_of(payload_of(frame)->0) is None,
        _ => false,
    }
}

/// The statuses of an answer that is fine.
pub open spec fn good_statuses(frame: Json) -> Option<Seq<Json>> {
    match payload_of(frame) {
        Some(payload) => if is_ok(payload) {
            statuses_of(payload)
        } else {
            None
        },
        None => None,
    }
}

fn response_statuses(frame: &Json) -> (r: Result<&Vec<Json>, GatewayError>)
    ensures
        match r {
            Ok(statuses) => good_statuses(*frame) == Some(statuses@),
            Err(error) => good_statuses(*frame) is None && is_response_error(error, *frame),
        },
{
    let payload = match frame.follow3("data", "response", "payload") {
        Some(payload) => payload,
        None => {
            return Err(GatewayError::ResponseWithoutPayload);
        },
    };
    if !payload.has_text("status", "ok") {
        return Err(GatewayError::ResponseNotOk(compact(payload)));
    }
    if let Some(statuses) = payload.follow3("response", "data", "statuses") {
        if let Some(list) = statuses.as_array() {
            return Ok(list);
        }
    }
    Err(GatewayError::ResponseWithoutStatuses)
}

/// The order id under a name of a status.
pub open spec fn oid_under(status: Json, name: Seq<char>) -> Option<u64> {
    match status.path2(name, "oid"@) {
        Some(oid) => oid.as_whole(),
        None => None,
    }
}

/// What a status says of a placement: the order rests, is filled or was
/// refused, in that order.
pub open spec fn is_outcome_of(outcome: PlaceOutcome, status: Json) -> bool {
    match outcome {
        PlaceOutcome::Resting(oid) => oid_under(status, "resting"@) == Some(oid),
        PlaceOutcome::Filled(oid) => oid_under(status, "resting"@) is None && oid_under(
            status,
            "filled"@,
        ) == Some(oid),
        PlaceOutcome::Rejected(reason) => oid_under(status, "resting"@) is None && oid_under(
            status,
            "filled"@,
        ) is None && status.entry_text("error"@) == Some(reason@),
    }
}

/// A status says nothing of a placement.
pub open spec fn is_no_outcome(status: Json) -> bool {
    oid_under(status, "resting"@) is None && oid_under(status, "filled"@) is None
        && status.entry_text("error"@) is None
}

fn u64_under(status: &Json, name: &str) -> (r: Option<u64>)
    ensures
        r == oid_under(*status, name@),
{
    match status.follow2(name, "oid") {
        Some(oid) => json_u64(oid),
        None => None,
    }
}

/// Why an answer says nothing of a placement.
pub open spec fn is_place_error(error: GatewayError, frame: Json) -> bool {
    let statuses = good_statuses(frame);
    match error {
        GatewayError::PlaceWithoutStatus => statuses is Some && statuses->0.len() == 0,
        GatewayError::UnexpectedPlace(status) => statuses is Some && statuses->0.len() > 0
            && is_no_outcome(statuses->0[0]) && status@ == json::compact_text(statuses->0[0]),
        _ => statuses is None && is_response_error(error, frame),
    }
}

/// What an answer says of a placement.
pub fn place_outcome(frame: &Json) -> (r: Result<PlaceOutcome, GatewayError>)
    ensures
        match r {
            Ok(outcome) => good_statuses(*frame) is Some && good_statuses(*frame)->0.len() > 0
                && is_outcome_of(outcome, good_statuses(*frame)->0[0]),
            Err(error) => is_place_error(error, *frame),
        },
{
    let statuses = match response_statuses(frame) {
        Ok(statuses) => statuses,
        Err(error) => {
            return Err(error);
        },
    };
    if statuses.len() == 0 {
        return Err(GatewayError::PlaceWithoutStatus);
    }
    let first = &statuses[0];
    if let Some(oid) = u64_under(first, "resting") {
        return Ok(PlaceOutcome::Resting(oid));
    }
    if let Some(oid) = u64_under(first, "filled") {
        return Ok(PlaceOutcome::Filled(oid));
    }
    if let Some(error) = first.get_str("error") {
        return Ok(PlaceOutcome::Rejected(owned(error)));
    }
    Err(GatewayError::UnexpectedPlace(compact(first)))
}

/// Why an answer does not confirm a cancellation.
pub open spec fn is_cancel_error(error: GatewayError, frame: Json) -> bool {
    let statuses = good_statuses(frame);
    match error {
        GatewayError::CancelWithoutStatus => statuses is Some && statuses->0.len() == 0,
        GatewayError::CancelRefused(message) => statuses is Some && statuses->0.len() > 0
            && statuses->0[0].characters() != Some("success"@) && statuses->0[0].entry_text(
            "error"@,
        ) == Some(message@),
        GatewayError::UnexpectedCancel(status) => statuses is Some && statuses->0.len() > 0
            && statuses->0[0].characters() != Some("success"@) && statuses->0[0].entry_text(
            "error"@,
        ) is None && status@ == json::compact_text(statuses->0[0]),
        _ => statuses is None && is_response_error(error, frame),
    }
}

/// Whether an answer confirms a cancellation.
pub fn cancel_succeeded(frame: &Json) -> (r: Result<(), GatewayError>)
    ensures
        match r {
            Ok(_) => good_statuses(*frame) is Some && good_statuses(*frame)->0.len() > 0
                && good_statuses(*frame)->0[0].characters() == Some("success"@),
            Err(error) => is_cancel_error(error, *frame),
        },
{
    let statuses = match response_statuses(frame) {
        Ok(statuses) => statuses,
        Err(error) => {
            return Err(error);
        },
    };
    if statuses.len() == 0 {
        return Err(GatewayError::CancelWithoutStatus);
    }
    let first = &statuses[0];
    if let Some(word) = first.as_str() {
        if same(word, "success") {
            return Ok(());
        }
    }
    if let Some(error) = first.get_str("error") {
        return Err(GatewayError::CancelRefused(owned(error)));
    }
    Err(GatewayError::UnexpectedCancel(compact(first)))
}

} // verus!
