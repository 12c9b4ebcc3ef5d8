//! The connections of the feeds, and the frames that they bring.
use std::collections::HashMap;
use vstd::prelude::*;
use crate::arch::action_gateway;
use crate::arch::action_gateway::GatewayError;
use crate::arch::records::SystemEvent;
use crate::arch::schema::{EventEnvelope, RawEventRecord};
use crate::arch::storage::StorageStream;
use crate::arch::vocabulary::{RestReason, RestScope};
use crate::binary64;
use crate::binary64::Binary64;
use crate::constants;
use crate::constants::MILLION;
use crate::json;
use crate::json::{Json, decode};
use crate::text;
use crate::text::{numbered, owned};
use super::base::ExecutionProbe;
use super::commands;
use super::commands::{Command, pair};
use super::feeds::FeedPlan;
use super::frames;
use super::frames::{exchange_timestamp_ns, frame_channel};
use super::state;
use super::state::{ActiveProbe, ConnectionState};
use super::utils::TASK_HL_PRIVATE;

verus! {

/// The connection of a task.
pub open spec fn connection_of(
    connections: Map<u64, ConnectionState>,
    task_id: u64,
) -> Option<ConnectionState> {
    if connections.contains_key(task_id) {
        Some(connections[task_id])
    } else {
        None
    }
}

/// How often a task was connected.
pub open spec fn generation_of(connections: Map<u64, ConnectionState>, task_id: u64) -> u64 {
    match connection_of(connections, task_id) {
        Some(connection) => connection.generation,
        None => 0,
    }
}

/// Every connection but that of one task is kept.
pub open spec fn others_are_kept(
    before: Map<u64, ConnectionState>,
    after: Map<u64, ConnectionState>,
    task_id: u64,
) -> bool {
    forall|other: u64|
        other != task_id ==> #[trigger] connection_of(after, other) == connection_of(before, other)
}

/// How often a task was connected.
pub(crate) fn generation(connections: &HashMap<u64, ConnectionState>, task_id: u64) -> (r: u64)
    ensures
        r == generation_of(connections@, task_id),
{
    match connections.get(&task_id) {
        Some(connection) => connection.generation,
        None => 0,
    }
}

/// Why a frame could not be handled.
#[derive(Debug)]
pub enum FrameError {
    /// The text of the frame is no JSON; holds the message of the decoder.
    Undecodable(String),
    UnknownTask(u64),
    Gateway(GatewayError),
}

impl FrameError {
    /// What the error says.
    pub open spec fn text(self) -> Seq<char> {
        match self {
            FrameError::Undecodable(message) => "decode raw JSON: "@ + message@,
            FrameError::UnknownTask(task_id) => "unknown raw task id "@ + text::digits(
                task_id as nat,
            ),
            FrameError::Gateway(error) => error.text(),
        }
    }

    pub fn message(&self) -> (r: String)
        ensures
            r@ == self.text(),
    {
        match self {
            FrameError::Undecodable(message) => owned("decode raw JSON: ").concat(message.as_str()),
            FrameError::UnknownTask(task_id) => numbered("unknown raw task id ", *task_id),
            FrameError::Gateway(error) => error.message(),
        }
    }
}

/// The document of a frame.
pub fn decode_frame(raw_json: &str) -> (r: Result<Json, FrameError>)
    ensures
        match r {
            Ok(document) => json::decoded_json(raw_json@) == Ok::<Json, Seq<char>>(document),
            Err(FrameError::Undecodable(message)) => json::decoded_json(raw_json@) == Err::<
                Json,
                Seq<char>,
            >(message@),
            Err(_) => false,
        },
{
    match decode(raw_json) {
        Ok(document) => Ok(document),
        Err(message) => Err(FrameError::Undecodable(message)),
    }
}

/// A connection that is being opened.
#[derive(Debug)]
pub struct Opening {
    /// What is stored first: that a new private connection voids the evidence of
    /// the one before.
    pub notice: Option<SystemEvent>,
    /// What is stored before the connection is opened.
    pub start: SystemEvent,
    pub connection_id: String,
}

/// What a connection is called.
pub open spec fn connection_text(feed: Seq<char>, generation: u64) -> Seq<char> {
    feed + "-"@ + text::digits(generation as nat)
}

/// The event that tells that a connection is opened.
pub open spec fn is_start_event(
    event: SystemEvent,
    plan: FeedPlan,
    connection_id: String,
    generation: u64,
) -> bool {
    &&& event matches SystemEvent::ConnectionStart {
        task_id,
        source,
        feed,
        connection_id: named,
        reconnect_index,
    }
    &&& task_id == plan.task_id
    &&& source == plan.source
    &&& feed == plan.feed
    &&& named == connection_id
    &&& reconnect_index == generation
}

impl ExecutionProbe {
    /// The plan of a task.
    pub open spec fn plan_of(self, task_id: u64) -> Option<FeedPlan> {
        if self.feed_plans@.contains_key(task_id) {
            Some(self.feed_plans@[task_id])
        } else {
            None
        }
    }

    /// The plan of a task.
    pub fn feed_plan(&self, task_id: u64) -> (r: Option<&FeedPlan>)
        ensures
            match r {
                Some(plan) => self.plan_of(task_id) == Some(*plan),
                None => self.plan_of(task_id) is None,
            },
    {
        self.feed_plans.get(&task_id)
    }

    /// The number that a task's next connection gets.
    pub open spec fn next_generation(self, task_id: u64) -> u64 {
        action_gateway::successor(generation_of(self.connections@, task_id))
    }

    /// The next connection of a task takes the place of a private one.
    pub open spec fn voids_evidence(self, task_id: u64) -> bool {
        task_id == TASK_HL_PRIVATE && self.next_generation(task_id) > 1
    }

    /// `after` follows when a task is connected: what its feed brought before is
    /// forgotten, the connection gets the next number and counts its frames anew,
    /// and a new private connection voids the evidence that an order is gone.
    pub open spec fn is_connecting(self, after: ExecutionProbe, plan: FeedPlan) -> bool {
        let generation = self.next_generation(plan.task_id);
        let connection = connection_of(after.connections@, plan.task_id);
        &&& after == (ExecutionProbe {
            market: after.market,
            connections: after.connections,
            active_probe: if self.voids_evidence(plan.task_id) && self.active_probe is Some {
                Some(
                    ActiveProbe {
                        terminal_order_update_monotonic_ns: None,
                        ..self.active_probe->0
                    },
                )
            } else {
                self.active_probe
            },
            ..self
        })
        &&& after.market.is_cleared_from(self.market, plan.feed@)
        &&& others_are_kept(self.connections@, after.connections@, plan.task_id)
        &&& connection is Some
        &&& connection->0.generation == generation
        &&& connection->0.connection_id@ == connection_text(plan.feed@, generation)
        &&& connection->0.frame_seq == 0
        &&& connection->0.last_receive_monotonic_ns is None
    }

    /// What is told of a connection that is opened: its name and its number, and
    /// that a renewed private one voids the evidence of the one before.
    pub open spec fn is_opening(self, opening: Opening, plan: FeedPlan) -> bool {
        let generation = self.next_generation(plan.task_id);
        &&& opening.connection_id@ == connection_text(plan.feed@, generation)
        &&& is_start_event(opening.start, plan, opening.connection_id, generation)
        &&& opening.notice == (if self.voids_evidence(plan.task_id) {
            Some(SystemEvent::RecoveryEvidenceInvalidated { reconnect_index: generation })
        } else {
            None
        })
    }

    /// Begins a connection of a task, where the task has a plan.
    pub fn begin_connection(&mut self, task_id: u64) -> (r: Option<Opening>)
        requires
            old(self).is_sound(),
        ensures
            final(self).is_sound(),
            match (r, old(self).plan_of(task_id)) {
                (Some(opening), Some(plan)) => {
                    &&& old(self).is_connecting(*final(self), plan)
                    &&& old(self).is_opening(opening, plan)
                },
                (None, None) => *final(self) == *old(self),
                _ => false,
            },
    {
        let (source, feed) = match self.feed_plan(task_id) {
            Some(plan) => (plan.source.clone(), plan.feed.clone()),
            None => {
                return None;
            },
        };
        self.market.clear_reconnecting_feed(feed.as_str());
        let number = generation(&self.connections, task_id).saturating_add(1);
        let mut connection_id = feed.clone();
        connection_id.append("-");
        connection_id.append(numbered("", number).as_str());
        proof {
            reveal_strlit("");
            assert(connection_id@ =~= connection_text(feed@, number));
        }
        self.connections.insert(
            task_id,
            ConnectionState {
                generation: number,
                connection_id: connection_id.clone(),
                frame_seq: 0,
                last_receive_monotonic_ns: None,
            },
        );
        let notice = if task_id == TASK_HL_PRIVATE && number > 1 {
            if let Some(probe) = &mut self.active_probe {
                probe.terminal_order_update_monotonic_ns = None;
            }
            Some(SystemEvent::RecoveryEvidenceInvalidated { reconnect_index: number })
        } else {
            None
        };
        let start = SystemEvent::ConnectionStart {
            task_id,
            source,
            feed,
            connection_id: connection_id.clone(),
            reconnect_index: number,
        };
        Some(Opening { notice, start, connection_id })
    }
}

/// A time in nanoseconds, in milliseconds.
pub open spec fn in_milliseconds(nanoseconds: u64) -> Binary64 {
    binary64::whole_number(false, nanoseconds as nat).quotient(constants::number(MILLION))
}

/// A time in nanoseconds, in milliseconds.
pub fn milliseconds(nanoseconds: u64) -> (r: Binary64)
    ensures
        r == in_milliseconds(nanoseconds),
{
    Binary64::from_u64(nanoseconds).over(Binary64 { bits: MILLION })
}

/// A time in microseconds, in nanoseconds, within the range of `u64`.
pub open spec fn from_micros(microseconds: u64) -> u64 {
    if microseconds * 1_000 > u64::MAX {
        u64::MAX
    } else {
        (microseconds * 1_000) as u64
    }
}

fn nanoseconds(microseconds: u64) -> (r: u64)
    ensures
        r == from_micros(microseconds),
{
    if microseconds > 18_446_744_073_709_551 {
        u64::MAX
    } else {
        microseconds * 1_000
    }
}

/// The number of a frame.
pub open spec fn next_frame(connections: Map<u64, ConnectionState>, task_id: u64) -> u64 {
    match connection_of(connections, task_id) {
        Some(connection) => action_gateway::successor(connection.frame_seq),
        None => 1,
    }
}

/// What the connection of a task is called.
pub open spec fn name_of(connections: Map<u64, ConnectionState>, task_id: u64) -> Seq<char> {
    match connection_of(connections, task_id) {
        Some(connection) => connection.connection_id@,
        None => Seq::empty(),
    }
}

/// The stream that holds the raw frames of a feed.
pub open spec fn frame_stream(plan: FeedPlan) -> StorageStream {
    if plan.is_action {
        StorageStream::Actions
    } else if plan.is_private {
        StorageStream::PrivateWs
    } else {
        StorageStream::PublicMarket
    }
}

/// A frame as it came in.
#[derive(Debug)]
pub struct RawFrame {
    /// When the frame was read, in microseconds.
    pub timestamp_us: u64,
    pub raw_json: String,
    pub received_monotonic_ns: u64,
    pub decoded_monotonic_ns: u64,
}

impl ExecutionProbe {
    /// What is told of a connection that is ready.
    pub fn connection_ready(
        &self,
        task_id: u64,
        connection_id: String,
        started_ns: u64,
        now_ns: u64,
    ) -> (r: Option<SystemEvent>)
        ensures
            match (r, self.plan_of(task_id)) {
                (Some(event), Some(plan)) => event == (SystemEvent::ConnectionReady {
                    task_id,
                    source: plan.source,
                    feed: plan.feed,
                    connection_id,
                    subscriptions: plan.subscriptions@.len() as usize,
                    elapsed_ms: in_milliseconds(state::elapsed(now_ns, started_ns)),
                }),
                (None, None) => true,
                _ => false,
            },
    {
        match self.feed_plan(task_id) {
            Some(plan) => Some(
                SystemEvent::ConnectionReady {
                    task_id,
                    source: plan.source.clone(),
                    feed: plan.feed.clone(),
                    connection_id,
                    subscriptions: plan.subscriptions.len(),
                    elapsed_ms: milliseconds(now_ns.saturating_sub(started_ns)),
                },
            ),
            None => None,
        }
    }

    /// The record of a raw frame.
    pub open spec fn is_frame_record(
        self,
        record: RawEventRecord,
        plan: FeedPlan,
        raw: RawFrame,
        frame: Json,
    ) -> bool {
        let plain = EventEnvelope {
            exchange_ts_ns: None,
            decoded_monotonic_ns: raw.received_monotonic_ns,
            connection_id: None,
            connection_frame_seq: None,
            raw_json: None,
            ..record.envelope
        };
        &&& self.is_next_envelope(
            plain,
            "raw_"@ + plan.feed@,
            from_micros(raw.timestamp_us),
            raw.received_monotonic_ns,
        )
        &&& record.envelope.exchange_ts_ns == frames::exchange_time(frame)
        &&& record.envelope.decoded_monotonic_ns == raw.decoded_monotonic_ns
        &&& text::optional_text(record.envelope.connection_id) == Some(
            name_of(self.connections@, plan.task_id),
        )
        &&& record.envelope.connection_frame_seq == Some(
            next_frame(self.connections@, plan.task_id),
        )
        &&& record.envelope.raw_json == Some(raw.raw_json)
        &&& record.source == plan.source
        &&& record.feed == plan.feed
        &&& text::optional_text(record.channel) == frames::channel_of(frame)
    }

    /// `after` follows when a frame of a task has come in.
    pub open spec fn has_counted(
        self,
        after: ExecutionProbe,
        task_id: u64,
        received_ns: u64,
    ) -> bool {
        let connection = connection_of(after.connections@, task_id);
        &&& after == (ExecutionProbe { connections: after.connections, ..self.after_event() })
        &&& others_are_kept(self.connections@, after.connections@, task_id)
        &&& connection is Some
        &&& connection->0.generation == generation_of(self.connections@, task_id)
        &&& connection->0.connection_id@ == name_of(self.connections@, task_id)
        &&& connection->0.frame_seq == next_frame(self.connections@, task_id)
        &&& connection->0.last_receive_monotonic_ns == Some(received_ns)
    }

    /// Counts a frame and gives the record in which it is stored.
    pub fn admit_frame(&mut self, task_id: u64, raw: RawFrame, frame: &Json) -> (r: Result<
        (StorageStream, RawEventRecord),
        FrameError,
    >)
        requires
            old(self).is_sound(),
        ensures
            final(self).is_sound(),
            match (r, old(self).plan_of(task_id)) {
                (Ok((stream, record)), Some(plan)) => {
                    &&& stream == frame_stream(plan)
                    &&& old(self).is_frame_record(record, plan, raw, *frame)
                    &&& old(self).has_counted(*final(self), task_id, raw.received_monotonic_ns)
                },
                (Err(FrameError::UnknownTask(unknown)), None) => {
                    unknown == task_id && *final(self) == *old(self)
                },
                _ => false,
            },
    {
        let (source, feed, stream) = match self.feed_plan(task_id) {
            Some(plan) => {
                let stream = if plan.is_action {
                    StorageStream::Actions
                } else if plan.is_private {
                    StorageStream::PrivateWs
                } else {
                    StorageStream::PublicMarket
                };
                (plan.source.clone(), plan.feed.clone(), stream)
            },
            None => {
                return Err(FrameError::UnknownTask(task_id));
            },
        };
        let (number, frame_seq, connection_id) = match self.connections.get(&task_id) {
            Some(connection) => (
                connection.generation,
                connection.frame_seq.saturating_add(1),
                connection.connection_id.clone(),
            ),
            None => (0u64, 1u64, String::new()),
        };
        self.connections.insert(
            task_id,
            ConnectionState {
                generation: number,
                connection_id: connection_id.clone(),
                frame_seq,
                last_receive_monotonic_ns: Some(raw.received_monotonic_ns),
            },
        );
        let event_type = owned("raw_").concat(feed.as_str());
        let plain = self.new_envelope(
            event_type.as_str(),
            nanoseconds(raw.timestamp_us),
            raw.received_monotonic_ns,
        );
        let channel = match frame_channel(frame) {
            Some(name) => Some(owned(name)),
            None => None,
        };
        let envelope = EventEnvelope {
            exchange_ts_ns: exchange_timestamp_ns(frame),
            decoded_monotonic_ns: raw.decoded_monotonic_ns,
            connection_id: Some(connection_id),
            connection_frame_seq: Some(frame_seq),
            raw_json: Some(raw.raw_json),
            ..plain
        };
        Ok((stream, RawEventRecord { envelope, source, feed, channel }))
    }

    /// What the module asks for when it starts.
    pub fn initialize_module(&self) -> (r: Vec<Command>)
        ensures
            commands::start_nothing(r@),
            r@ == seq![
                Command::Rest { reason: RestReason::ProcessStart, scope: RestScope::Full },
                Command::Note(
                    SystemEvent::ProcessStart {
                        probe_enabled: self.config.probe.enabled,
                        feed_count: self.feed_plans@.len() as usize,
                        action_asset_id: self.gateway.asset(),
                    },
                ),
            ],
    {
        pair(
            Command::Rest { reason: RestReason::ProcessStart, scope: RestScope::Full },
            Command::Note(
                SystemEvent::ProcessStart {
                    probe_enabled: self.config.probe.enabled,
                    feed_count: self.feed_plans.len(),
                    action_asset_id: self.gateway.asset_id(),
                },
            ),
        )
    }
}

} // verus!
