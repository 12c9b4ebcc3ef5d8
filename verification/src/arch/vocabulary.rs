//! The words that the records use.
use vstd::prelude::*;
use crate::text::owned;

verus! {

/// What gave rise to a decision.
#[derive(Clone, Copy, Debug, PartialEq, Eq, Structural)]
pub enum Trigger {
    Timer,
    OwnOrderOpen,
    OwnOrderAck,
    CancelEffective,
    Fill,
    WsRecovery,
    PartialFill,
    ManualStop,
    RestRecovery,
    StorageBackpressure,
    StaleData,
    PlannedExpiry,
    FairValueGuard,
    HardInventoryGuard,
    MarkoutComplete,
}

impl Trigger {
    pub open spec fn text(self) -> Seq<char> {
        match self {
            Trigger::Timer => "timer"@,
            Trigger::OwnOrderOpen => "own_order_open"@,
            Trigger::OwnOrderAck => "own_order_ack"@,
            Trigger::CancelEffective => "cancel_effective"@,
            Trigger::Fill => "fill"@,
            Trigger::WsRecovery => "ws_recovery"@,
            Trigger::PartialFill => "partial_fill"@,
            Trigger::ManualStop => "manual_stop"@,
            Trigger::RestRecovery => "rest_recovery"@,
            Trigger::StorageBackpressure => "storage_backpressure"@,
            Trigger::StaleData => "stale_data"@,
            Trigger::PlannedExpiry => "planned_expiry"@,
            Trigger::FairValueGuard => "fair_value_guard"@,
            Trigger::HardInventoryGuard => "hard_inventory_guard"@,
            Trigger::MarkoutComplete => "markout_complete"@,
        }
    }

    pub fn as_str(self) -> (r: &'static str)
        ensures
            r@ == self.text(),
    {
        match self {
            Trigger::Timer => "timer",
            Trigger::OwnOrderOpen => "own_order_open",
            Trigger::OwnOrderAck => "own_order_ack",
            Trigger::CancelEffective => "cancel_effective",
            Trigger::Fill => "fill",
            Trigger::WsRecovery => "ws_recovery",
            Trigger::PartialFill => "partial_fill",
            Trigger::ManualStop => "manual_stop",
            Trigger::RestRecovery => "rest_recovery",
            Trigger::StorageBackpressure => "storage_backpressure",
            Trigger::StaleData => "stale_data",
            Trigger::PlannedExpiry => "planned_expiry",
            Trigger::FairValueGuard => "fair_value_guard",
            Trigger::HardInventoryGuard => "hard_inventory_guard",
            Trigger::MarkoutComplete => "markout_complete",
        }
    }
}

/// Why a decision was taken.
#[derive(Clone, Copy, Debug, PartialEq, Eq, Structural)]
pub enum Reason {
    EligibleProbeCell,
    AcknowledgedRestingOrder,
    RestingExposureRemainsEligible,
    ExchangeRejectedPlace,
    OrderUpdateRejected,
    CancelConfirmedWaitForLateFills,
    CancelRemainderAfterPartial,
    FullFillWaitForMarkoutHorizons,
    ShutdownRequested,
    OrderStillOpen,
    PrivateWsConfirmedFlat,
    TelemetryWriterCapacityLow,
    MarketSourceStale,
    PlannedDwellElapsed,
    QuoteOutsideFairValueGuard,
    HardInventoryGuard,
    MarkoutComplete,
}

impl Reason {
    pub open spec fn text(self) -> Seq<char> {
        match self {
            Reason::EligibleProbeCell => "eligible_probe_cell"@,
            Reason::AcknowledgedRestingOrder => "acknowledged_resting_order"@,
            Reason::RestingExposureRemainsEligible => "resting_exposure_remains_eligible"@,
            Reason::ExchangeRejectedPlace => "exchange_rejected_place"@,
            Reason::OrderUpdateRejected => "order_update_rejected"@,
            Reason::CancelConfirmedWaitForLateFills => "cancel_confirmed_wait_for_late_fills"@,
            Reason::CancelRemainderAfterPartial => "cancel_remainder_after_partial"@,
            Reason::FullFillWaitForMarkoutHorizons => "full_fill_wait_for_markout_horizons"@,
            Reason::ShutdownRequested => "shutdown_requested"@,
            Reason::OrderStillOpen => "order_still_open"@,
            Reason::PrivateWsConfirmedFlat => "private_ws_confirmed_flat_after_settlement_window"@,
            Reason::TelemetryWriterCapacityLow => "telemetry_writer_capacity_low"@,
            Reason::MarketSourceStale => "market_source_stale"@,
            Reason::PlannedDwellElapsed => "planned_dwell_elapsed"@,
            Reason::QuoteOutsideFairValueGuard => "quote_outside_fair_value_guard"@,
            Reason::HardInventoryGuard => "hard_inventory_guard"@,
            Reason::MarkoutComplete => "markout_complete"@,
        }
    }

    pub fn as_str(self) -> (r: &'static str)
        ensures
            r@ == self.text(),
    {
        match self {
            Reason::EligibleProbeCell => "eligible_probe_cell",
            Reason::AcknowledgedRestingOrder => "acknowledged_resting_order",
            Reason::RestingExposureRemainsEligible => "resting_exposure_remains_eligible",
            Reason::ExchangeRejectedPlace => "exchange_rejected_place",
            Reason::OrderUpdateRejected => "order_update_rejected",
            Reason::CancelConfirmedWaitForLateFills => "cancel_confirmed_wait_for_late_fills",
            Reason::CancelRemainderAfterPartial => "cancel_remainder_after_partial",
            Reason::FullFillWaitForMarkoutHorizons => "full_fill_wait_for_markout_horizons",
            Reason::ShutdownRequested => "shutdown_requested",
            Reason::OrderStillOpen => "order_still_open",
            Reason::PrivateWsConfirmedFlat => "private_ws_confirmed_flat_after_settlement_window",
            Reason::TelemetryWriterCapacityLow => "telemetry_writer_capacity_low",
            Reason::MarketSourceStale => "market_source_stale",
            Reason::PlannedDwellElapsed => "planned_dwell_elapsed",
            Reason::QuoteOutsideFairValueGuard => "quote_outside_fair_value_guard",
            Reason::HardInventoryGuard => "hard_inventory_guard",
            Reason::MarkoutComplete => "markout_complete",
        }
    }
}

/// How a probe came to its end.
#[derive(Clone, Copy, Debug, PartialEq, Eq, Structural)]
pub enum FinishReason {
    PlaceRejected,
    OrderRejected,
    RestInventoryReconciled,
    WsOrderInventoryReconciled,
    InventoryReconciled,
}

impl FinishReason {
    pub open spec fn text(self) -> Seq<char> {
        match self {
            FinishReason::PlaceRejected => "place_rejected"@,
            FinishReason::OrderRejected => "order_rejected"@,
            FinishReason::RestInventoryReconciled => "rest_inventory_reconciled"@,
            FinishReason::WsOrderInventoryReconciled => "ws_order_inventory_reconciled"@,
            FinishReason::InventoryReconciled => "inventory_reconciled"@,
        }
    }

    pub fn as_str(self) -> (r: &'static str)
        ensures
            r@ == self.text(),
    {
        match self {
            FinishReason::PlaceRejected => "place_rejected",
            FinishReason::OrderRejected => "order_rejected",
            FinishReason::RestInventoryReconciled => "rest_inventory_reconciled",
            FinishReason::WsOrderInventoryReconciled => "ws_order_inventory_reconciled",
            FinishReason::InventoryReconciled => "inventory_reconciled",
        }
    }
}

/// How much of the account a snapshot covers.
#[derive(Clone, Copy, Debug, PartialEq, Eq, Structural)]
pub enum RestScope {
    Reconciliation,
    Full,
}

impl RestScope {
    pub open spec fn text(self) -> Seq<char> {
        match self {
            RestScope::Reconciliation => "reconciliation"@,
            RestScope::Full => "full"@,
        }
    }

    pub fn as_str(self) -> (r: &'static str)
        ensures
            r@ == self.text(),
    {
        match self {
            RestScope::Reconciliation => "reconciliation",
            RestScope::Full => "full",
        }
    }
}

/// Why a snapshot of the account is asked for.
#[derive(Clone, Copy, Debug, PartialEq, Eq, Structural)]
pub enum RestReason {
    ProcessStart,
    FlattenPostResponse,
    FlattenUserFill,
    UserFill,
    Periodic,
    ShutdownPlaceRecovery,
    ShutdownReconciliation,
    ProcessShutdown,
    PlaceTimeout,
    CancelTimeout,
    FlattenTimeout,
    LifecycleRecovery,
    AwaitInventoryBeforeFlatten,
    /// An order without a known id was to be cancelled.
    CancelWithoutOid(Trigger),
}

impl RestReason {
    pub open spec fn text(self) -> Seq<char> {
        match self {
            RestReason::ProcessStart => "process_start"@,
            RestReason::FlattenPostResponse => "flatten_post_response"@,
            RestReason::FlattenUserFill => "flatten_user_fill"@,
            RestReason::UserFill => "user_fill"@,
            RestReason::Periodic => "periodic"@,
            RestReason::ShutdownPlaceRecovery => "shutdown_place_recovery"@,
            RestReason::ShutdownReconciliation => "shutdown_reconciliation"@,
            RestReason::ProcessShutdown => "process_shutdown"@,
            RestReason::PlaceTimeout => "place_timeout"@,
            RestReason::CancelTimeout => "cancel_timeout"@,
            RestReason::FlattenTimeout => "flatten_timeout"@,
            RestReason::LifecycleRecovery => "lifecycle_recovery"@,
            RestReason::AwaitInventoryBeforeFlatten => "await_inventory_before_flatten"@,
            RestReason::CancelWithoutOid(trigger) => "cancel_without_oid:"@ + trigger.text(),
        }
    }

    pub fn to_text(self) -> (r: String)
        ensures
            r@ == self.text(),
    {
        match self {
            RestReason::ProcessStart => owned("process_start"),
            RestReason::FlattenPostResponse => owned("flatten_post_response"),
            RestReason::FlattenUserFill => owned("flatten_user_fill"),
            RestReason::UserFill => owned("user_fill"),
            RestReason::Periodic => owned("periodic"),
            RestReason::ShutdownPlaceRecovery => owned("shutdown_place_recovery"),
            RestReason::ShutdownReconciliation => owned("shutdown_reconciliation"),
            RestReason::ProcessShutdown => owned("process_shutdown"),
            RestReason::PlaceTimeout => owned("place_timeout"),
            RestReason::CancelTimeout => owned("cancel_timeout"),
            RestReason::FlattenTimeout => owned("flatten_timeout"),
            RestReason::LifecycleRecovery => owned("lifecycle_recovery"),
            RestReason::AwaitInventoryBeforeFlatten => owned("await_inventory_before_flatten"),
            RestReason::CancelWithoutOid(trigger) => {
                let mut out = owned("cancel_without_oid:");
                out.append(trigger.as_str());
                out
            },
        }
    }
}

} // verus!
