//! What is sent: the order that was planned, under numbers of its own.
use extrema_infra::arch::market_assets::exchange::prelude::HyperliquidOrderAction;
use vstd::prelude::*;
use crate::arch::action_gateway;
use crate::arch::action_gateway::{
    ActionContext, ActionGateway, ActionKind, ActionSigner, DispatchTimes, GatewayError,
    PlaceOutcome, SentAction,
};
use crate::arch::schema::EventEnvelope;
use crate::arch::signing;
use crate::json::Json;
use crate::text;
use super::super::recording;
use super::super::recording::KeptRecord;
use super::super::state::ProbeSide;
use super::super::utils;

verus! {

/// A placement only adds liquidity and may build inventory; a flattening takes
/// liquidity at once and may only reduce.
pub proof fn law_only_flattening_takes_and_reduces(
    gateway: ActionGateway,
    action: HyperliquidOrderAction,
    context: ActionContext,
)
    ensures
        gateway.is_order(action, context, ActionKind::Place) ==> signing::hl_order(
            gateway.asset(),
            context.side->0 == ProbeSide::Bid,
            context.size->0@,
            context.price->0@,
            true,
            false,
            text::optional_text(context.cloid),
        ) == Ok::<HyperliquidOrderAction, Seq<char>>(action),
        gateway.is_order(action, context, ActionKind::Ioc) ==> signing::hl_order(
            gateway.asset(),
            context.side->0 == ProbeSide::Bid,
            context.size->0@,
            context.price->0@,
            false,
            true,
            text::optional_text(context.cloid),
        ) == Ok::<HyperliquidOrderAction, Seq<char>>(action),
        ActionKind::Ioc.is_reducing(),
        !ActionKind::Place.is_reducing(),
        !ActionKind::Cancel.is_reducing(),
        ActionKind::Place.force_text() == "Alo"@,
        ActionKind::Ioc.force_text() == "Ioc"@,
{
}

/// The nonce of a request is the time, or one more than the last where the clock
/// stands still or goes back. Requests are numbered one by one.
pub proof fn law_nonces_follow_the_clock(nonce: u64, now_ms: u64)
    requires
        nonce < u64::MAX,
    ensures
        ({
            let next = action_gateway::nonce_after(nonce, now_ms);
            &&& next > nonce
            &&& next >= now_ms
            &&& next == now_ms || next == nonce + 1
            &&& action_gateway::successor(nonce) == nonce + 1
        }),
{
}

/// Orders are followed for the vault where there is one, else for the owner.
pub proof fn law_the_vault_comes_before_the_owner(signer: ActionSigner)
    ensures
        signer.vault_address is Some ==> signer.account() == signer.vault_address->0@,
        signer.vault_address is None ==> signer.account() == signer.owner_address@,
{
}

/// The record of an action says what was sent: a bid buys and an ask sells, and the
/// numbers, the times and the text are those of the request.
pub proof fn law_records_say_what_was_sent(
    sent: SentAction,
    envelope: EventEnvelope,
    context: ActionContext,
    kind: ActionKind,
    request_id: u64,
    nonce: u64,
    times: DispatchTimes,
    raw: String,
)
    requires
        sent.tells_of(envelope, context, kind, request_id, nonce, times, raw),
    ensures
        context.side == Some(ProbeSide::Bid) ==> text::optional_text(sent.record.side) == Some(
            "buy"@,
        ),
        context.side == Some(ProbeSide::Ask) ==> text::optional_text(sent.record.side) == Some(
            "sell"@,
        ),
        sent.record.reduce_only <==> kind == ActionKind::Ioc,
        sent.request_id == request_id && sent.record.request_id == request_id,
        sent.nonce == nonce && sent.record.nonce == nonce,
        sent.socket_write_monotonic_ns == times.socket_write_ns,
        sent.record.socket_write_ns == Some(times.socket_write_ns),
        sent.record.sign_start_ns == times.sign_start_ns,
        sent.record.sign_end_ns == times.sign_end_ns,
        sent.record.command_enqueue_ns == times.command_enqueue_ns,
        sent.record.raw_outbound_json == raw,
        sent.record.price == context.price,
        sent.record.size == context.size,
        sent.record.remaining_size == context.remaining_size,
        sent.record.cloid == context.cloid,
        sent.record.oid == context.oid,
        sent.record.probe_id == context.probe_id,
        sent.record.decision_id == context.decision_id,
        sent.record.intent_id == context.intent_id,
        sent.action_id == context.action_id && sent.record.action_id == context.action_id,
        sent.record.action_type@ == (match kind {
            ActionKind::Place => "place"@,
            ActionKind::Cancel => "cancel"@,
            ActionKind::Ioc => "ioc"@,
        }),
        text::optional_text(sent.record.time_in_force) == Some(
            match kind {
                ActionKind::Place => "Alo"@,
                ActionKind::Cancel => "Gtc"@,
                ActionKind::Ioc => "Ioc"@,
            },
        ),
        sent.record.payload_hash@ == text::hex(
            utils::sha256_digest(vstd::utf8::encode_utf8(sent.record.raw_outbound_json@)),
        ),
        sent.record.envelope == envelope,
{
}

/// Only a placement waits for its records: what ends exposure goes out whether its
/// decision was stored or not. The first record that was not stored is told.
pub proof fn law_nothing_holds_up_the_end_of_exposure(
    kind: ActionKind,
    decision_stored: bool,
    action_stored: bool,
)
    ensures
        kind != ActionKind::Place ==> recording::is_sent(kind, decision_stored)
            && recording::is_taken_note_of(kind, action_stored),
        kind == ActionKind::Place ==> recording::is_sent(kind, decision_stored) == decision_stored
            && recording::is_taken_note_of(kind, action_stored) == action_stored,
        recording::first_failure(decision_stored, action_stored) == (if !decision_stored {
            Some(KeptRecord::Decision)
        } else if !action_stored {
            Some(KeptRecord::Action)
        } else {
            None
        }),
        recording::first_failure(decision_stored, action_stored) is None <==> decision_stored
            && action_stored,
{
}

/// Assets of the main dex have the numbers of their markets, and assets of different
/// dexes or markets have different numbers, as long as a dex has fewer than ten
/// thousand markets and the main one fewer than a hundred thousand.
pub proof fn law_assets_have_their_own_numbers(
    index: u32,
    dex: Option<u32>,
    other_index: u32,
    other_dex: Option<u32>,
)
    requires
        index < 10_000,
        other_index < 10_000,
    ensures
        signing::asset_number(index, None) == index,
        signing::asset_number(index, Some(0)) == index,
        dex is Some && dex->0 > 0 ==> signing::asset_number(index, dex) == 100_000 + 10_000 * dex->0
            + index,
        signing::asset_number(index, dex) == signing::asset_number(other_index, other_dex)
            ==> index == other_index,
{
}

/// The first status of an answer that is fine tells the outcome of a placement: an
/// order that rests before one that is filled before one that is refused. A status
/// has no two outcomes.
pub proof fn law_statuses_have_one_outcome(
    status: Json,
    outcome: PlaceOutcome,
    other: PlaceOutcome,
)
    requires
        action_gateway::is_outcome_of(outcome, status),
    ensures
        ({
            let resting = status.path2("resting"@, "oid"@);
            let filled = status.path2("filled"@, "oid"@);
            &&& resting is Some && resting->0.as_whole() is Some ==> outcome
                == PlaceOutcome::Resting(resting->0.as_whole()->0)
            &&& (resting is None || resting->0.as_whole() is None) && filled is Some
                && filled->0.as_whole() is Some ==> outcome == PlaceOutcome::Filled(
                filled->0.as_whole()->0,
            )
            &&& outcome matches PlaceOutcome::Rejected(reason) ==> status.entry_text("error"@)
                == Some(reason@)
            &&& outcome is Resting && action_gateway::is_outcome_of(other, status) ==> other
                == outcome
            &&& outcome is Filled && action_gateway::is_outcome_of(other, status) ==> other
                == outcome
            &&& outcome is Rejected && action_gateway::is_outcome_of(other, status) ==> other
                is Rejected && other->Rejected_0@ == outcome->Rejected_0@
        }),
{
}

/// Only an answer that is marked as fine has statuses to be read.
pub proof fn law_refused_answers_confirm_nothing(frame: Json)
    ensures
        ({
            let payload = frame.path3("data"@, "response"@, "payload"@);
            &&& payload is None ==> action_gateway::good_statuses(frame) is None
            &&& payload is Some && payload->0.entry_text("status"@) != Some("ok"@)
                ==> action_gateway::good_statuses(frame) is None
            &&& payload is Some && payload->0.entry_text("status"@) == Some("ok"@)
                && payload->0.path3("response"@, "data"@, "statuses"@) is Some
                ==> action_gateway::good_statuses(frame) == payload->0.path3(
                "response"@,
                "data"@,
                "statuses"@,
            )->0.items()
        }),
{
}

/// The message of a request tells its number, the action, the nonce and the
/// signature, each in its own place, and the vault where there is one.
pub proof fn law_messages_tell_their_request(
    request_id: u64,
    action: Seq<char>,
    nonce: u64,
    signature: signing::Signature,
)
    ensures
        signing::post_text(request_id, action, nonce, signature, None) == "{\"method\":\"post\",\"id\":"@
            + text::digits(request_id as nat)
            + ",\"request\":{\"type\":\"action\",\"payload\":{\"action\":"@ + action
            + ",\"nonce\":"@ + text::digits(nonce as nat) + ",\"signature\":{\"r\":"@
            + signing::quoted(signature.r) + ",\"s\":"@ + signing::quoted(signature.s)
            + ",\"v\":"@ + text::digits(signature.v as nat) + "}"@ + Seq::<char>::empty()
            + "}}}"@,
{
}

/// Of two requests the later one has a later number and a later nonce, whatever the
/// clock shows, and no nonce lies before the clock.
pub proof fn law_later_requests_have_later_numbers(
    first: ActionGateway,
    second: ActionGateway,
    third: ActionGateway,
    id: u64,
    nonce: u64,
    now_ms: u64,
    later_id: u64,
    later_nonce: u64,
    later_ms: u64,
)
    requires
        first.has_begun(second, id, nonce, now_ms),
        second.has_begun(third, later_id, later_nonce, later_ms),
        id < u64::MAX,
        nonce < u64::MAX,
    ensures
        later_id == id + 1,
        later_nonce > nonce,
        nonce >= now_ms,
        later_nonce >= later_ms,
        third.asset() == first.asset(),
{
}

/// A cancellation that is refused is refused with the words of its status, and is
/// never one that succeeded; a placement fails only where its status tells neither
/// an order nor a refusal.
pub proof fn law_failures_repeat_their_status(error: GatewayError, frame: Json)
    requires
        action_gateway::good_statuses(frame) is Some,
        action_gateway::good_statuses(frame)->0.len() > 0,
    ensures
        ({
            let status = action_gateway::good_statuses(frame)->0[0];
            &&& action_gateway::is_cancel_error(error, frame) ==> {
                &&& status.characters() != Some("success"@)
                &&& error is CancelRefused || error is UnexpectedCancel
                &&& error is CancelRefused ==> status.entry_text("error"@) == Some(
                    error->CancelRefused_0@,
                )
                &&& error is UnexpectedCancel ==> status.entry_text("error"@) is None
            }
            &&& action_gateway::is_place_error(error, frame) ==> {
                &&& error is UnexpectedPlace
                &&& status.entry_text("error"@) is None
                &&& action_gateway::oid_under(status, "resting"@) is None
                &&& action_gateway::oid_under(status, "filled"@) is None
            }
        }),
{
}

} // verus!
