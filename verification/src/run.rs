//! Run outcomes and engine states as the server reports them.

use vstd::prelude::*;
use crate::clock::unix_nanos;
use crate::graph::nodes::Real;
use crate::text::string_of;
use std::collections::HashMap;
use std::collections::hash_map::RandomState;

verus! {

#[verifier::external_type_specification]
#[verifier::external_body]
pub struct ExUuid(uuid::Uuid);

/// Sixteen bytes from the operating system's random source
/// (`getrandom::fill`), or `None` where the source reports an error.
/// Nothing is stated of the bytes: they are random.
#[verifier::external_body]
fn random_bytes() -> (r: Option<[u8; 16]>) {
    let mut bytes = [0u8; 16];
    match getrandom::fill(&mut bytes) {
        Ok(()) => Some(bytes),
        Err(_) => None,
    }
}

/// The version 4 (random) identifier made of sixteen random bytes
/// (`uuid::Builder::from_random_bytes`, then `into_uuid`): the bytes with
/// the version and variant bits set.
#[verifier::external_body]
fn uuid_of_random_bytes(bytes: [u8; 16]) -> (r: uuid::Uuid) {
    uuid::Builder::from_random_bytes(bytes).into_uuid()
}

/// A fresh random identifier, or `None` when the operating system's random
/// source fails.
pub(crate) fn new_uuid() -> (r: Option<uuid::Uuid>) {
    match random_bytes() {
        Some(b) => Some(uuid_of_random_bytes(b)),
        None => None,
    }
}

/// The text form of an identifier (`to_string`, the hyphenated form): 36
/// characters, lowercase hexadecimal digits in groups separated by `-` at
/// positions 8, 13, 18 and 23.
#[verifier::external_body]
pub(crate) fn uuid_text(id: &uuid::Uuid) -> (r: String)
    ensures
        r@.len() == 36,
        r@[8] == '-' && r@[13] == '-' && r@[18] == '-' && r@[23] == '-',
{
    id.to_string()
}

/// Why a run stopped.
#[derive(Debug, Clone, PartialEq, Eq)]
pub enum StopReason {
    /// Normal completion.
    Success,
    /// The user aborted the run.
    Abort,
    /// An error ended the run.
    Fail(String),
}

/// Engine state as exported to metrics.
#[derive(Debug, Clone, Copy, PartialEq, Eq, Structural)]
pub enum EngineState {
    Idle,
    Running,
    Paused,
    Error,
}

/// The number a server engine state is reported as: 0 idle, 1 running,
/// 2 paused, 3 error.
pub open spec fn engine_code(s: EngineState) -> i64 {
    match s {
        EngineState::Idle => 0,
        EngineState::Running => 1,
        EngineState::Paused => 2,
        EngineState::Error => 3,
    }
}

impl EngineState {
    /// The metric value of the state: 0 idle, 1 running, 2 paused, 3 error.
    pub fn value(&self) -> (r: i64)
        ensures
            r == engine_code(*self),
            r == match *self {
                EngineState::Idle => 0i64,
                EngineState::Running => 1i64,
                EngineState::Paused => 2i64,
                EngineState::Error => 3i64,
            },
    {
        match self {
            EngineState::Idle => 0,
            EngineState::Running => 1,
            EngineState::Paused => 2,
            EngineState::Error => 3,
        }
    }
}

#[verifier::external_type_specification]
#[verifier::external_body]
pub struct ExJsonValue(serde_json::Value);

/// The system clock in nanoseconds since the Unix epoch; 0 when it reads
/// an earlier time.
fn now_ns() -> (r: u64) {
    match unix_nanos() {
        Some(t) => t,
        None => 0,
    }
}

/// The exit status a stop reason is reported with.
pub open spec fn exit_status_of(reason: StopReason) -> Seq<char> {
    match reason {
        StopReason::Success => "success"@,
        StopReason::Abort => "abort"@,
        StopReason::Fail(_) => "fail"@,
    }
}

/// Marks the start of an acquisition run.
pub struct RunStartDoc {
    pub uid: uuid::Uuid,
    pub time_ns: u64,
    pub scan_type: String,
    pub metadata: HashMap<String, serde_json::Value>,
}

impl RunStartDoc {
    /// Add a metadata entry (the value already converted to JSON); an entry
    /// with the same key is replaced.
    pub fn with_metadata(self, key: String, value: serde_json::Value) -> (r: Self)
        ensures
            r.uid == self.uid,
            r.time_ns == self.time_ns,
            r.scan_type == self.scan_type,
            vstd::std_specs::hash::obeys_key_model::<String>() && vstd::std_specs::hash::builds_valid_hashers::<RandomState>()
                ==> r.metadata@ == self.metadata@.insert(key, value),
    {
        let mut s = self;
        let _ = s.metadata.insert(key, value);
        s
    }
}

/// Describes one data field of the events.
pub struct DataKey {
    pub name: String,
    pub dtype: String,
    pub shape: Vec<usize>,
    pub source: String,
    pub units: Option<String>,
    pub lower_ctrl_limit: Option<Real>,
    pub upper_ctrl_limit: Option<Real>,
}

impl DataKey {
    /// A scalar field with no source, units or limits.
    pub fn new(name: String, dtype: String) -> (r: Self)
        ensures
            r.name == name,
            r.dtype == dtype,
            r.shape@.len() == 0,
            r.source@.len() == 0,
            r.units is None,
            r.lower_ctrl_limit is None,
            r.upper_ctrl_limit is None,
    {
        DataKey {
            name,
            dtype,
            shape: Vec::new(),
            source: String::new(),
            units: None,
            lower_ctrl_limit: None,
            upper_ctrl_limit: None,
        }
    }

    pub fn with_units(self, units: String) -> (r: Self)
        ensures
            r == (DataKey { units: Some(units), ..self }),
    {
        DataKey { units: Some(units), ..self }
    }

    pub fn with_source(self, source: String) -> (r: Self)
        ensures
            r == (DataKey { source: source, ..self }),
    {
        DataKey { source, ..self }
    }

    pub fn with_shape(self, shape: Vec<usize>) -> (r: Self)
        ensures
            r == (DataKey { shape: shape, ..self }),
    {
        DataKey { shape, ..self }
    }

    /// Set the plotting limits (reals as `f64` bit patterns).
    pub fn with_limits(self, lower: Real, upper: Real) -> (r: Self)
        ensures
            r == (DataKey { lower_ctrl_limit: Some(lower), upper_ctrl_limit: Some(upper), ..self }),
    {
        DataKey { lower_ctrl_limit: Some(lower), upper_ctrl_limit: Some(upper), ..self }
    }
}

/// Declares the data fields of a stream of events.
pub struct DescriptorDoc {
    pub uid: uuid::Uuid,
    pub run_start: uuid::Uuid,
    pub time_ns: u64,
    pub name: String,
    pub data_keys: Vec<DataKey>,
}

/// Measured values of one moment.
pub struct EventDoc {
    pub uid: uuid::Uuid,
    pub descriptor: uuid::Uuid,
    pub time_ns: u64,
    pub seq_num: u64,
    pub data: HashMap<String, serde_json::Value>,
    pub timestamps: HashMap<String, u64>,
}

/// Marks the end of an acquisition run.
pub struct RunStopDoc {
    pub uid: uuid::Uuid,
    pub run_start: uuid::Uuid,
    pub time_ns: u64,
    pub reason: StopReason,
    pub num_events: u64,
    pub exit_status: String,
}

/// A document of the data stream.
pub enum Document {
    RunStart(RunStartDoc),
    Descriptor(DescriptorDoc),
    Event(EventDoc),
    RunStop(RunStopDoc),
}

/// The id a document carries.
pub open spec fn uid_of(doc: Document) -> uuid::Uuid {
    match doc {
        Document::RunStart(d) => d.uid,
        Document::Descriptor(d) => d.uid,
        Document::Event(d) => d.uid,
        Document::RunStop(d) => d.uid,
    }
}

/// The time a document carries.
pub open spec fn time_of(doc: Document) -> u64 {
    match doc {
        Document::RunStart(d) => d.time_ns,
        Document::Descriptor(d) => d.time_ns,
        Document::Event(d) => d.time_ns,
        Document::RunStop(d) => d.time_ns,
    }
}

impl Document {
    /// The start of run `run_uid`, stamped now, with no metadata.
    pub fn run_start(run_uid: uuid::Uuid, scan_type: String) -> (r: Self)
        ensures
            r matches Document::RunStart(d) && d.uid == run_uid && d.scan_type == scan_type && d.metadata@ == Map::<
                String,
                serde_json::Value,
            >::empty(),
    {
        Document::RunStart(RunStartDoc { uid: run_uid, time_ns: now_ns(), scan_type, metadata: HashMap::new() })
    }

    /// A descriptor of run `run_start` under a fresh id, stamped now;
    /// `None` when no fresh id can be drawn (the random source failed).
    pub fn descriptor(run_start: uuid::Uuid, name: String, data_keys: Vec<DataKey>) -> (r: Option<Self>)
        ensures
            r matches Some(doc) ==> (doc matches Document::Descriptor(d) && d.run_start == run_start && d.name == name
                && d.data_keys == data_keys),
    {
        match new_uuid() {
            Some(uid) => Some(Document::Descriptor(DescriptorDoc { uid, run_start, time_ns: now_ns(), name, data_keys })),
            None => None,
        }
    }

    /// An event of descriptor `descriptor` under a fresh id, stamped now,
    /// numbered 0 (the emitter numbers it), with no per-field times;
    /// `None` when no fresh id can be drawn (the random source failed).
    pub fn event(descriptor: uuid::Uuid, data: HashMap<String, serde_json::Value>) -> (r: Option<Self>)
        ensures
            r matches Some(doc) ==> (doc matches Document::Event(d) && d.descriptor == descriptor && d.seq_num == 0
                && d.data == data && d.timestamps@ == Map::<String, u64>::empty()),
    {
        match new_uuid() {
            Some(uid) => Some(
                Document::Event(
                    EventDoc { uid, descriptor, time_ns: now_ns(), seq_num: 0, data, timestamps: HashMap::new() },
                ),
            ),
            None => None,
        }
    }

    /// The end of run `run_start` under a fresh id, stamped now, with the
    /// exit status of its reason; no events counted yet (the engine counts);
    /// `None` when no fresh id can be drawn (the random source failed).
    pub fn run_stop(run_start: uuid::Uuid, reason: StopReason) -> (r: Option<Self>)
        ensures
            r matches Some(doc) ==> (doc matches Document::RunStop(d) && d.run_start == run_start && d.reason == reason
                && d.num_events == 0 && d.exit_status@ == exit_status_of(reason)),
    {
        let exit_status = match &reason {
            StopReason::Success => string_of("success"),
            StopReason::Abort => string_of("abort"),
            StopReason::Fail(_) => string_of("fail"),
        };
        match new_uuid() {
            Some(uid) => Some(Document::RunStop(RunStopDoc { uid, run_start, time_ns: now_ns(), reason, num_events: 0, exit_status })),
            None => None,
        }
    }

    /// The document's id.
    pub fn uid(&self) -> (r: uuid::Uuid)
        ensures
            r == uid_of(*self),
    {
        match self {
            Document::RunStart(d) => d.uid,
            Document::Descriptor(d) => d.uid,
            Document::Event(d) => d.uid,
            Document::RunStop(d) => d.uid,
        }
    }

    /// The document's time, in nanoseconds since the Unix epoch.
    pub fn time_ns(&self) -> (r: u64)
        ensures
            r == time_of(*self),
    {
        match self {
            Document::RunStart(d) => d.time_ns,
            Document::Descriptor(d) => d.time_ns,
            Document::Event(d) => d.time_ns,
            Document::RunStop(d) => d.time_ns,
        }
    }
}

} // verus!
