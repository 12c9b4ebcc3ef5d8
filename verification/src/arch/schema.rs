//! The records of the store.
use vstd::prelude::*;
use crate::text::owned;

verus! {

pub const SCHEMA_VERSION: u16 = 1;

/// What every record carries.
#[derive(Debug)]
pub struct EventEnvelope {
    pub schema_version: u16,
    pub run_id: String,
    pub host_id: String,
    pub process_id: u32,
    pub build_commit: String,
    pub event_id: String,
    pub event_type: String,
    pub exchange_ts_ns: Option<u64>,
    pub received_wall_ns: u64,
    pub received_monotonic_ns: u64,
    pub decoded_monotonic_ns: u64,
    pub connection_id: Option<String>,
    pub connection_frame_seq: Option<u64>,
    pub raw_json: Option<String>,
}

/// A raw frame.
#[derive(Debug)]
pub struct RawEventRecord {
    pub envelope: EventEnvelope,
    pub source: String,
    pub feed: String,
    pub channel: Option<String>,
}

/// A run and what it stores.
#[derive(Debug)]
pub struct RunManifest {
    pub schema_version: u16,
    pub run_id: String,
    pub host_id: String,
    pub process_id: u32,
    pub build_commit: String,
    pub process_start_wall_ns: u64,
    pub config_path: String,
    pub probe_enabled: bool,
    pub streams: Vec<String>,
}

impl EventEnvelope {
    /// The envelope of an event that no frame has brought.
    pub open spec fn is_plain(
        self,
        run_id: Seq<char>,
        host_id: Seq<char>,
        process_id: u32,
        build_commit: Seq<char>,
        event_id: Seq<char>,
        event_type: Seq<char>,
        wall_ns: u64,
        monotonic_ns: u64,
    ) -> bool {
        &&& self.schema_version == SCHEMA_VERSION
        &&& self.run_id@ == run_id
        &&& self.host_id@ == host_id
        &&& self.process_id == process_id
        &&& self.build_commit@ == build_commit
        &&& self.event_id@ == event_id
        &&& self.event_type@ == event_type
        &&& self.exchange_ts_ns is None
        &&& self.received_wall_ns == wall_ns
        &&& self.received_monotonic_ns == monotonic_ns
        &&& self.decoded_monotonic_ns == monotonic_ns
        &&& self.connection_id is None
        &&& self.connection_frame_seq is None
        &&& self.raw_json is None
    }
}

pub fn empty_envelope(
    run_id: &str,
    host_id: &str,
    process_id: u32,
    build_commit: &str,
    event_id: String,
    event_type: &str,
    wall_ns: u64,
    monotonic_ns: u64,
) -> (r: EventEnvelope)
    ensures
        r.is_plain(
            run_id@,
            host_id@,
            process_id,
            build_commit@,
            event_id@,
            event_type@,
            wall_ns,
            monotonic_ns,
        ),
{
    EventEnvelope {
        schema_version: SCHEMA_VERSION,
        run_id: owned(run_id),
        host_id: owned(host_id),
        process_id,
        build_commit: owned(build_commit),
        event_id,
        event_type: owned(event_type),
        exchange_ts_ns: None,
        received_wall_ns: wall_ns,
        received_monotonic_ns: monotonic_ns,
        decoded_monotonic_ns: monotonic_ns,
        connection_id: None,
        connection_frame_seq: None,
        raw_json: None,
    }
}

} // verus!
