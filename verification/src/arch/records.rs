//! What the records of the probe hold.
use vstd::prelude::*;
use crate::arch::action_gateway::PlaceOutcome;
use crate::arch::execution_probe_module::state::{
    MarketSnapshot, ProbePhase, ProbeSide, QueueBelief, QuotePosition,
};
use crate::arch::schema::EventEnvelope;
use crate::arch::storage::StorageStream;
use crate::arch::vocabulary::{FinishReason, Reason, Trigger};
use crate::binary64::Binary64;

verus! {

/// Something that a decision can choose.
#[derive(Debug)]
pub enum Action {
    /// A cell of the experiment.
    Cell { side: ProbeSide, price_level_ticks: u32, planned_dwell_sec: u64 },
    /// The placement of an order.
    Place {
        side: ProbeSide,
        price_level_ticks: u32,
        price: String,
        size: String,
        planned_dwell_sec: u64,
    },
    Keep { oid: Option<u64> },
    Cancel { oid: Option<u64> },
    /// A reduce-only order that fills at once or not at all.
    Ioc { side: ProbeSide, price: String, size: String },
    Terminate { reason: FinishReason },
    Reconcile,
    WaitMarkout,
    /// The end of a probe whose order is terminal and whose inventory is flat.
    Finish,
}

impl Action {
    /// The same action.
    pub fn duplicate(&self) -> (r: Action)
        ensures
            r == *self,
    {
        match self {
            Action::Cell { side, price_level_ticks, planned_dwell_sec } => Action::Cell {
                side: *side,
                price_level_ticks: *price_level_ticks,
                planned_dwell_sec: *planned_dwell_sec,
            },
            Action::Place { side, price_level_ticks, price, size, planned_dwell_sec } => {
                Action::Place {
                    side: *side,
                    price_level_ticks: *price_level_ticks,
                    price: price.clone(),
                    size: size.clone(),
                    planned_dwell_sec: *planned_dwell_sec,
                }
            },
            Action::Keep { oid } => Action::Keep { oid: *oid },
            Action::Cancel { oid } => Action::Cancel { oid: *oid },
            Action::Ioc { side, price, size } => Action::Ioc {
                side: *side,
                price: price.clone(),
                size: size.clone(),
            },
            Action::Terminate { reason } => Action::Terminate { reason: *reason },
            Action::Reconcile => Action::Reconcile,
            Action::WaitMarkout => Action::WaitMarkout,
            Action::Finish => Action::Finish,
        }
    }
}

/// What a decision record says of the order.
#[derive(Debug)]
pub struct ExposureSnapshot {
    pub probe_id: String,
    pub cloid: String,
    pub oid: Option<u64>,
    pub phase: ProbePhase,
    pub side: ProbeSide,
    pub price: Binary64,
    pub tick_size: Binary64,
    pub size: Binary64,
    pub remaining_size: Binary64,
    pub filled_size: Binary64,
    pub order_age_ms: u64,
    pub queue_belief: QueueBelief,
    pub position: QuotePosition,
}

/// What a decision record says of the risk.
#[derive(Clone, Copy, Debug, PartialEq, Eq, Structural)]
pub struct RiskSnapshot {
    pub confirmed_inventory: Binary64,
    pub pending_bid_inventory: Binary64,
    pub pending_ask_inventory: Binary64,
    pub worst_case_long_inventory: Binary64,
    pub worst_case_short_inventory: Binary64,
    pub account_value: Option<Binary64>,
    pub withdrawable: Option<Binary64>,
    pub maker_fee: Option<Binary64>,
    pub taker_fee: Option<Binary64>,
    pub action_budget_remaining: Option<u64>,
    pub writer_remaining_capacity: usize,
}

/// The state in which a decision was taken.
#[derive(Debug)]
pub struct ExecutionSnapshot {
    pub market: MarketSnapshot,
    pub execution: Option<ExposureSnapshot>,
    pub risk: RiskSnapshot,
}

/// The limits under which a decision was taken.
#[derive(Clone, Copy, Debug, PartialEq, Eq, Structural)]
pub struct RiskLimits {
    pub max_order_notional_usd: Binary64,
    pub max_abs_inventory_usd: Binary64,
    pub max_active_probe_orders: u64,
}

/// A decision.
#[derive(Debug)]
pub struct DecisionRecord {
    pub envelope: EventEnvelope,
    pub probe_id: String,
    pub decision_id: String,
    pub decision_ts_ns: u64,
    pub trigger_type: Trigger,
    pub state_snapshot_id: String,
    pub state_snapshot: ExecutionSnapshot,
    pub candidate_actions: Vec<Action>,
    pub selected_action: Action,
    pub behavior_policy_id: String,
    pub selection_probability: Binary64,
    pub random_seed: u64,
    pub planned_expiry_ts_ns: Option<u64>,
    pub risk_limits: RiskLimits,
    pub reason_code: Reason,
}

/// A fill of the resting order and its links.
#[derive(Debug)]
pub struct FillLink {
    pub probe_id: String,
    pub decision_id: String,
    pub action_id: String,
    pub cloid: String,
    pub oid: u64,
    pub fill_id: String,
    pub price: Binary64,
    pub size: Binary64,
    pub side: ProbeSide,
    pub fee: Option<Binary64>,
    pub fee_token: Option<String>,
    /// The fee as a share of the notional of the fill.
    pub realized_fee_rate: Option<Binary64>,
    /// The fee for each unit of size, in ticks.
    pub fee_ticks: Option<Binary64>,
    pub fair_value: Option<Binary64>,
    pub spread_edge_at_fill: Option<Binary64>,
    pub maker_fee_rate: Option<Binary64>,
    pub taker_fee_rate: Option<Binary64>,
    pub priority_fee: u64,
    pub inventory_before: Binary64,
    pub inventory_after: Binary64,
    pub cumulative_filled_size: Binary64,
    pub remaining_size_after_fill: Binary64,
    pub order_age_ms: u64,
    pub queue_belief: QueueBelief,
    pub position: QuotePosition,
    pub exchange_time_ms: u64,
    pub raw_fill: String,
}

/// A fill of the flattening order and its links.
#[derive(Debug)]
pub struct FlattenFillLink {
    pub probe_id: String,
    pub action_id: Option<String>,
    pub oid: u64,
    pub fill_id: String,
    pub price: Binary64,
    pub size: Binary64,
    pub side: ProbeSide,
    pub fee: Option<Binary64>,
    pub fee_token: Option<String>,
    pub exchange_time_ms: u64,
    pub raw_fill: String,
}

/// The fair value some time after a fill.
#[derive(Debug)]
pub struct MarkoutSample {
    pub probe_id: String,
    pub oid: u64,
    pub fill_id: String,
    pub horizon_ms: u64,
    pub fill_price: Binary64,
    pub fill_size: Binary64,
    pub fair_value: Option<Binary64>,
    pub signed_markout: Option<Binary64>,
}

/// A probe at its end.
#[derive(Debug)]
pub struct FinalizedProbe {
    pub probe_id: String,
    pub oid: Option<u64>,
    pub side: ProbeSide,
    pub price: Binary64,
    pub size: Binary64,
    pub filled_size: Binary64,
    pub first_fill_monotonic_ns: Option<u64>,
    pub planned_dwell_ms: u64,
    pub flatten_oid: Option<u64>,
    pub flatten_action_id: Option<String>,
    pub actual_dwell_ms: u64,
    pub end_reason: FinishReason,
    pub exposure_trigger: Option<Trigger>,
    pub censored: bool,
    pub initial_queue_belief: Option<QueueBelief>,
    pub queue_belief: QueueBelief,
    pub position: QuotePosition,
}

/// What a system record tells.
#[derive(Debug)]
pub enum SystemEvent {
    ProcessStart { probe_enabled: bool, feed_count: usize, action_asset_id: u32 },
    RecoveryEvidenceInvalidated { reconnect_index: u64 },
    ConnectionStart {
        task_id: u64,
        source: String,
        feed: String,
        connection_id: String,
        reconnect_index: u64,
    },
    ConnectionReady {
        task_id: u64,
        source: String,
        feed: String,
        connection_id: String,
        subscriptions: usize,
        elapsed_ms: Binary64,
    },
    ConnectionError { task_id: u64, error: String },
    FrameProcessingError { task_id: u64, error: String },
    TimerError { error: String },
    OrphanPostResponse { request_id: u64 },
    PlacePostAccepted { request_id: u64, oid: u64 },
    PlaceImmediateFill { request_id: u64, oid: u64 },
    PlaceRejected { request_id: u64, reason: String },
    CancelPostAccepted { request_id: u64 },
    FlattenPostResponse { request_id: u64, outcome: PlaceOutcome },
    FlattenIocUnexpectedResting { request_id: u64, oid: u64 },
    FlattenIocRejected { request_id: u64, reason: String },
    UnmatchedPostResponse { request_id: u64 },
    CancelEffective { oid: u64, status_timestamp_ms: u64, has_fill: bool },
    FlattenFill(FlattenFillLink),
    UnmatchedUserFill { oid: u64, trade_id: String },
    Fill(FillLink),
    MarkoutsCensored { pending_fill_count: usize },
    ShutdownRequested,
    ProcessStop {
        open_order_count: usize,
        confirmed_inventory: Binary64,
        account_snapshot_monotonic_ns: u64,
    },
    RestSnapshotUnhealthy { snapshot_monotonic_ns: u64 },
    PlaceTimeout { probe_id: String },
    CancelTimeout { probe_id: String },
    FlattenTimeout { probe_id: String },
    Markout(MarkoutSample),
    Finalized(FinalizedProbe),
}

impl SystemEvent {
    /// The kind that the record names.
    pub open spec fn kind_text(self) -> Seq<char> {
        match self {
            SystemEvent::ProcessStart { .. } => "process_start"@,
            SystemEvent::RecoveryEvidenceInvalidated { .. } => "private_ws_recovery_evidence_invalidated"@,
            SystemEvent::ConnectionStart { .. } => "connection_start"@,
            SystemEvent::ConnectionReady { .. } => "connection_ready"@,
            SystemEvent::ConnectionError { .. } => "connection_error"@,
            SystemEvent::FrameProcessingError { .. } => "frame_processing_error"@,
            SystemEvent::TimerError { .. } => "timer_error"@,
            SystemEvent::OrphanPostResponse { .. } => "orphan_post_response"@,
            SystemEvent::PlacePostAccepted { .. } => "place_post_accepted"@,
            SystemEvent::PlaceImmediateFill { .. } => "place_immediate_fill"@,
            SystemEvent::PlaceRejected { .. } => "place_rejected"@,
            SystemEvent::CancelPostAccepted { .. } => "cancel_post_accepted"@,
            SystemEvent::FlattenPostResponse { .. } => "flatten_post_response"@,
            SystemEvent::FlattenIocUnexpectedResting { .. } => "flatten_ioc_unexpected_resting"@,
            SystemEvent::FlattenIocRejected { .. } => "flatten_ioc_rejected"@,
            SystemEvent::UnmatchedPostResponse { .. } => "unmatched_post_response"@,
            SystemEvent::CancelEffective { .. } => "cancel_effective"@,
            SystemEvent::FlattenFill(_) => "flatten_fill_link"@,
            SystemEvent::UnmatchedUserFill { .. } => "unmatched_user_fill"@,
            SystemEvent::Fill(_) => "fill_link"@,
            SystemEvent::MarkoutsCensored { .. } => "markouts_censored"@,
            SystemEvent::ShutdownRequested => "shutdown_requested"@,
            SystemEvent::ProcessStop { .. } => "process_stop"@,
            SystemEvent::RestSnapshotUnhealthy { .. } => "rest_snapshot_unhealthy"@,
            SystemEvent::PlaceTimeout { .. } => "place_timeout"@,
            SystemEvent::CancelTimeout { .. } => "cancel_timeout"@,
            SystemEvent::FlattenTimeout { .. } => "flatten_timeout"@,
            SystemEvent::Markout(_) => "fill_markout"@,
            SystemEvent::Finalized(_) => "probe_finalized"@,
        }
    }

    pub fn kind(&self) -> (r: &'static str)
        ensures
            r@ == self.kind_text(),
    {
        match self {
            SystemEvent::ProcessStart { .. } => "process_start",
            SystemEvent::RecoveryEvidenceInvalidated { .. } => "private_ws_recovery_evidence_invalidated",
            SystemEvent::ConnectionStart { .. } => "connection_start",
            SystemEvent::ConnectionReady { .. } => "connection_ready",
            SystemEvent::ConnectionError { .. } => "connection_error",
            SystemEvent::FrameProcessingError { .. } => "frame_processing_error",
            SystemEvent::TimerError { .. } => "timer_error",
            SystemEvent::OrphanPostResponse { .. } => "orphan_post_response",
            SystemEvent::PlacePostAccepted { .. } => "place_post_accepted",
            SystemEvent::PlaceImmediateFill { .. } => "place_immediate_fill",
            SystemEvent::PlaceRejected { .. } => "place_rejected",
            SystemEvent::CancelPostAccepted { .. } => "cancel_post_accepted",
            SystemEvent::FlattenPostResponse { .. } => "flatten_post_response",
            SystemEvent::FlattenIocUnexpectedResting { .. } => "flatten_ioc_unexpected_resting",
            SystemEvent::FlattenIocRejected { .. } => "flatten_ioc_rejected",
            SystemEvent::UnmatchedPostResponse { .. } => "unmatched_post_response",
            SystemEvent::CancelEffective { .. } => "cancel_effective",
            SystemEvent::FlattenFill(_) => "flatten_fill_link",
            SystemEvent::UnmatchedUserFill { .. } => "unmatched_user_fill",
            SystemEvent::Fill(_) => "fill_link",
            SystemEvent::MarkoutsCensored { .. } => "markouts_censored",
            SystemEvent::ShutdownRequested => "shutdown_requested",
            SystemEvent::ProcessStop { .. } => "process_stop",
            SystemEvent::RestSnapshotUnhealthy { .. } => "rest_snapshot_unhealthy",
            SystemEvent::PlaceTimeout { .. } => "place_timeout",
            SystemEvent::CancelTimeout { .. } => "cancel_timeout",
            SystemEvent::FlattenTimeout { .. } => "flatten_timeout",
            SystemEvent::Markout(_) => "fill_markout",
            SystemEvent::Finalized(_) => "probe_finalized",
        }
    }

    /// The stream that holds the record: fills and their markouts go with the
    /// private feed.
    pub open spec fn home(self) -> StorageStream {
        match self {
            SystemEvent::FlattenFill(_) => StorageStream::PrivateWs,
            SystemEvent::Fill(_) => StorageStream::PrivateWs,
            SystemEvent::Markout(_) => StorageStream::PrivateWs,
            SystemEvent::MarkoutsCensored { .. } => StorageStream::PrivateWs,
            _ => StorageStream::System,
        }
    }

    pub fn stream(&self) -> (r: StorageStream)
        ensures
            r == self.home(),
    {
        match self {
            SystemEvent::FlattenFill(_) => StorageStream::PrivateWs,
            SystemEvent::Fill(_) => StorageStream::PrivateWs,
            SystemEvent::Markout(_) => StorageStream::PrivateWs,
            SystemEvent::MarkoutsCensored { .. } => StorageStream::PrivateWs,
            _ => StorageStream::System,
        }
    }
}

/// Fills, their markouts and the markouts that are given up are stored with the
/// private feed, and every other event with the system.
pub proof fn law_fills_are_stored_with_the_private_feed(event: SystemEvent)
    ensures
        event is Fill || event is FlattenFill || event is Markout || event is MarkoutsCensored
            <==> event.home() == StorageStream::PrivateWs,
        event.home() == StorageStream::PrivateWs || event.home() == StorageStream::System,
{
}

} // verus!
