//! The recording service: storage settings, the active recording session
//! and the catalogue of finished acquisitions.
//!
//! The service decides; the caller does the file-system and clock work and
//! hands the results in (output paths already checked, end times, file
//! sizes, fresh identifiers).

use vstd::prelude::*;
use crate::clock::unix_nanos;
use crate::run::{new_uuid, uuid_text};
use crate::text::{chars_of, contains_chars, push_str, seq_contains, string_of, subrange_chars};

verus! {

/// The states a recording is reported in.
#[derive(Clone, Copy, PartialEq, Eq, Debug, Structural)]
pub enum RecordingState {
    Idle,
    Active,
    Finalizing,
}

/// Where and how recordings are written.
pub struct StorageSettings {
    pub output_directory: String,
    pub compression: String,
    pub compression_level: u32,
    pub chunk_size: u32,
    pub filename_pattern: String,
    pub include_timestamps: bool,
    pub include_device_metadata: bool,
    pub flush_interval_ms: u32,
    pub max_buffer_mb: u32,
}

/// HDF5 options of a configuration request; absent numbers and an empty
/// compression name keep the current value.
pub struct Hdf5Config {
    pub compression: String,
    pub compression_level: Option<u32>,
    pub chunk_size: Option<u32>,
    pub filename_pattern: Option<String>,
    pub include_timestamps: bool,
    pub include_device_metadata: bool,
}

/// A request to change the storage settings.
pub struct ConfigureStorageRequest {
    pub output_directory: String,
    pub hdf5_config: Option<Hdf5Config>,
    pub flush_interval_ms: Option<u32>,
    pub max_buffer_mb: Option<u32>,
}

/// The storage settings as reported to clients, with the disk figures.
pub struct StorageConfig {
    pub output_directory: String,
    pub hdf5_config: Option<Hdf5Config>,
    pub flush_interval_ms: u32,
    pub max_buffer_mb: u32,
    pub disk_space_available_bytes: u64,
    pub disk_space_used_bytes: u64,
}

impl StorageSettings {
    /// The settings a new service starts with.
    pub open spec fn is_default(&self) -> bool {
        &&& self.output_directory@ == "./data"@
        &&& self.compression@ == "gzip"@
        &&& self.compression_level == 4
        &&& self.chunk_size == 4096
        &&& self.filename_pattern@ == "{name}_{timestamp}.h5"@
        &&& self.include_timestamps
        &&& self.include_device_metadata
        &&& self.flush_interval_ms == 1000
        &&& self.max_buffer_mb == 256
    }

    /// The settings after a configuration request: the directory always
    /// changes; each other value changes only where the request gives one.
    pub open spec fn configured(self, req: ConfigureStorageRequest) -> StorageSettings {
        let s = StorageSettings { output_directory: req.output_directory, ..self };
        let s = match req.hdf5_config {
            Some(h) => StorageSettings {
                compression: if h.compression@.len() > 0 { h.compression } else { s.compression },
                compression_level: match h.compression_level {
                    Some(l) => l,
                    None => s.compression_level,
                },
                chunk_size: match h.chunk_size {
                    Some(c) => c,
                    None => s.chunk_size,
                },
                filename_pattern: match h.filename_pattern {
                    Some(p) => p,
                    None => s.filename_pattern,
                },
                include_timestamps: h.include_timestamps,
                include_device_metadata: h.include_device_metadata,
                ..s
            },
            None => s,
        };
        StorageSettings {
            flush_interval_ms: match req.flush_interval_ms {
                Some(i) => i,
                None => s.flush_interval_ms,
            },
            max_buffer_mb: match req.max_buffer_mb {
                Some(m) => m,
                None => s.max_buffer_mb,
            },
            ..s
        }
    }

    /// Apply a configuration request.
    pub fn configure(&mut self, req: ConfigureStorageRequest)
        ensures
            *final(self) == old(self).configured(req),
    {
        let ghost req0 = req;
        let ConfigureStorageRequest { output_directory, hdf5_config, flush_interval_ms, max_buffer_mb } = req;
        self.output_directory = output_directory;
        match hdf5_config {
            Some(h) => {
                if !h.compression.as_str().is_empty() {
                    self.compression = h.compression;
                }
                match h.compression_level {
                    Some(l) => {
                        self.compression_level = l;
                    },
                    None => {},
                }
                match h.chunk_size {
                    Some(c) => {
                        self.chunk_size = c;
                    },
                    None => {},
                }
                match h.filename_pattern {
                    Some(p) => {
                        self.filename_pattern = p;
                    },
                    None => {},
                }
                self.include_timestamps = h.include_timestamps;
                self.include_device_metadata = h.include_device_metadata;
            },
            None => {},
        }
        match flush_interval_ms {
            Some(i) => {
                self.flush_interval_ms = i;
            },
            None => {},
        }
        match max_buffer_mb {
            Some(m) => {
                self.max_buffer_mb = m;
            },
            None => {},
        }
        proof {
            assert(*self == old(self).configured(req0));
        }
    }

    /// The settings as reported to clients. Free disk space is not measured:
    /// it is reported as unknown (all ones) with nothing used.
    pub open spec fn reported(self) -> StorageConfig {
        StorageConfig {
            output_directory: self.output_directory,
            hdf5_config: Some(Hdf5Config {
                compression: self.compression,
                compression_level: Some(self.compression_level),
                chunk_size: Some(self.chunk_size),
                filename_pattern: Some(self.filename_pattern),
                include_timestamps: self.include_timestamps,
                include_device_metadata: self.include_device_metadata,
            }),
            flush_interval_ms: self.flush_interval_ms,
            max_buffer_mb: self.max_buffer_mb,
            disk_space_available_bytes: u64::MAX,
            disk_space_used_bytes: 0,
        }
    }

    /// Report the settings to a client.
    pub fn report(&self) -> (r: StorageConfig)
        ensures
            r == self.reported(),
    {
        StorageConfig {
            output_directory: self.output_directory.clone(),
            hdf5_config: Some(Hdf5Config {
                compression: self.compression.clone(),
                compression_level: Some(self.compression_level),
                chunk_size: Some(self.chunk_size),
                filename_pattern: Some(self.filename_pattern.clone()),
                include_timestamps: self.include_timestamps,
                include_device_metadata: self.include_device_metadata,
            }),
            flush_interval_ms: self.flush_interval_ms,
            max_buffer_mb: self.max_buffer_mb,
            disk_space_available_bytes: u64::MAX,
            disk_space_used_bytes: 0,
        }
    }
}

impl Default for StorageSettings {
    fn default() -> (s: Self)
        ensures
            s.is_default(),
    {
        StorageSettings {
            output_directory: string_of("./data"),
            compression: string_of("gzip"),
            compression_level: 4,
            chunk_size: 4096,
            filename_pattern: string_of("{name}_{timestamp}.h5"),
            include_timestamps: true,
            include_device_metadata: true,
            flush_interval_ms: 1000,
            max_buffer_mb: 256,
        }
    }
}

/// Metadata as a map: later pairs override earlier ones with the same key.
pub open spec fn metadata_map(m: Seq<(String, String)>) -> Map<Seq<char>, Seq<char>>
    decreases m.len(),
{
    if m.len() == 0 {
        Map::empty()
    } else {
        metadata_map(m.drop_last()).insert(m.last().0@, m.last().1@)
    }
}

/// Appending pairs to metadata overrides the keys they name and keeps the others.
pub proof fn lemma_metadata_merge(a: Seq<(String, String)>, b: Seq<(String, String)>)
    ensures
        metadata_map(a + b) == metadata_map(a).union_prefer_right(metadata_map(b)),
    decreases b.len(),
{
    if b.len() == 0 {
        assert(a + b =~= a);
        assert(metadata_map(a).union_prefer_right(metadata_map(b)) =~= metadata_map(a));
    } else {
        lemma_metadata_merge(a, b.drop_last());
        assert((a + b).drop_last() =~= a + b.drop_last());
        assert((a + b).last() == b.last());
        assert(metadata_map(a + b) =~= metadata_map(a).union_prefer_right(metadata_map(b)));
    }
}

/// The recording in progress.
pub struct RecordingSession {
    pub id: String,
    pub name: String,
    pub output_path: String,
    pub start_time_ns: u64,
    pub samples_recorded: u64,
    pub bytes_written: u64,
    pub flushes_completed: u64,
    pub state: RecordingState,
    pub metadata: Vec<(String, String)>,
    pub scan_id: Option<String>,
    pub run_uid: Option<String>,
    /// A file writer drains the ring buffer for this recording.
    pub has_writer: bool,
}

/// A finished acquisition in the catalogue.
pub struct AcquisitionRecord {
    pub id: String,
    pub name: String,
    pub file_path: String,
    pub created_at_ns: u64,
    pub duration_ns: u64,
    pub sample_count: u64,
    pub file_size_bytes: u64,
    pub metadata: Vec<(String, String)>,
    pub scan_id: Option<String>,
    pub run_uid: Option<String>,
}

/// A request to start recording.
pub struct StartRecordingRequest {
    pub name: String,
    pub metadata: Vec<(String, String)>,
    pub scan_id: Option<String>,
    pub run_uid: Option<String>,
}

/// The answer to a start request.
pub struct StartRecordingResponse {
    pub success: bool,
    pub error_message: String,
    pub recording_id: String,
    pub output_path: String,
}

/// The answer to a stop request.
pub struct StopRecordingResponse {
    pub success: bool,
    pub error_message: String,
    pub acquisition_id: String,
    pub output_path: String,
    pub file_size_bytes: u64,
    pub total_samples: u64,
    pub duration_ns: u64,
}

/// The status of a recording.
pub struct RecordingStatus {
    pub recording_id: String,
    pub state: RecordingState,
    pub output_path: String,
    pub samples_recorded: u64,
    pub bytes_written: u64,
    pub start_time_ns: u64,
    pub elapsed_ns: u64,
    pub buffer_fill_percent: u32,
    pub pending_samples: u64,
    pub flushes_completed: u64,
    pub error_message: String,
}

/// No two acquisitions share an id.
pub open spec fn ids_distinct(recs: Seq<AcquisitionRecord>) -> bool {
    forall|i: int, j: int| 0 <= i < j < recs.len() ==> recs[i].id@ != recs[j].id@
}

/// Whether an acquisition with this id is catalogued.
pub open spec fn has_id(recs: Seq<AcquisitionRecord>, id: Seq<char>) -> bool {
    exists|i: int| 0 <= i < recs.len() && #[trigger] recs[i].id@ == id
}

/// Position of the acquisition with this id.
pub open spec fn index_of_id(recs: Seq<AcquisitionRecord>, id: Seq<char>) -> Option<int> {
    if has_id(recs, id) {
        Some(choose|i: int| 0 <= i < recs.len() && #[trigger] recs[i].id@ == id)
    } else {
        None
    }
}

/// The catalogue after storing `rec`: an acquisition with the same id is replaced.
pub open spec fn stored(recs: Seq<AcquisitionRecord>, rec: AcquisitionRecord) -> Seq<AcquisitionRecord> {
    match index_of_id(recs, rec.id@) {
        Some(i) => recs.remove(i).push(rec),
        None => recs.push(rec),
    }
}

/// The session a start request opens.
pub open spec fn opened_session(req: StartRecordingRequest, path: String, id: String, start_time_ns: u64) -> RecordingSession {
    RecordingSession {
        id: id,
        name: req.name,
        output_path: path,
        start_time_ns: start_time_ns,
        samples_recorded: 0,
        bytes_written: 0,
        flushes_completed: 0,
        state: RecordingState::Active,
        metadata: req.metadata,
        scan_id: req.scan_id,
        run_uid: req.run_uid,
        has_writer: false,
    }
}

/// `rec` is the acquisition a stopped session leaves: the final metadata
/// follows the session's own.
pub open spec fn is_finished_record(
    rec: AcquisitionRecord,
    s: RecordingSession,
    final_metadata: Seq<(String, String)>,
    end_time_ns: u64,
    file_size_bytes: u64,
    acquisition_id: Seq<char>,
) -> bool {
    &&& rec.id@ == acquisition_id
    &&& rec.name == s.name
    &&& rec.file_path == s.output_path
    &&& rec.created_at_ns == s.start_time_ns
    &&& rec.duration_ns == end_time_ns - s.start_time_ns
    &&& rec.sample_count == s.samples_recorded
    &&& rec.file_size_bytes == file_size_bytes
    &&& rec.metadata@ == s.metadata@ + final_metadata
    &&& rec.scan_id == s.scan_id
    &&& rec.run_uid == s.run_uid
}

/// A stop or status request names the recording in progress, or names none.
pub open spec fn names_session(s: RecordingSession, requested: Option<String>) -> bool {
    match requested {
        Some(id) => id@ == s.id@,
        None => true,
    }
}

/// A refused stop request, with its message.
pub open spec fn stop_refusal(r: StopRecordingResponse, msg: Seq<char>) -> bool {
    &&& !r.success
    &&& r.error_message@ == msg
    &&& r.acquisition_id@.len() == 0
    &&& r.output_path@.len() == 0
    &&& r.file_size_bytes == 0
    &&& r.total_samples == 0
    &&& r.duration_ns == 0
}

/// A refused start request, with its message.
pub open spec fn start_refusal(r: StartRecordingResponse, msg: Seq<char>) -> bool {
    &&& !r.success
    &&& r.error_message@ == msg
    &&& r.recording_id@.len() == 0
    &&& r.output_path@.len() == 0
}

/// A status report with the given figures; the ring-buffer figures are
/// always zero.
pub open spec fn status_is(
    r: RecordingStatus,
    id: Seq<char>,
    state: RecordingState,
    path: Seq<char>,
    samples: u64,
    bytes: u64,
    start: u64,
    elapsed: u64,
    flushes: u64,
    msg: Seq<char>,
) -> bool {
    &&& r.recording_id@ == id
    &&& r.state == state
    &&& r.output_path@ == path
    &&& r.samples_recorded == samples
    &&& r.bytes_written == bytes
    &&& r.start_time_ns == start
    &&& r.elapsed_ns == elapsed
    &&& r.buffer_fill_percent == 0
    &&& r.pending_samples == 0
    &&& r.flushes_completed == flushes
    &&& r.error_message@ == msg
}

/// The session after one completed flush of `bytes` bytes; the counters
/// wrap around as atomic additions do.
pub open spec fn flushed(s: RecordingSession, bytes: u64) -> RecordingSession {
    RecordingSession {
        bytes_written: vstd::wrapping::u64_specs::wrapping_add(s.bytes_written, bytes),
        samples_recorded: vstd::wrapping::u64_specs::wrapping_add(s.samples_recorded, 1),
        flushes_completed: vstd::wrapping::u64_specs::wrapping_add(s.flushes_completed, 1),
        ..s
    }
}

/// The answer to a flush request.
pub struct FlushToStorageResponse {
    pub success: bool,
    pub error_message: String,
    pub samples_flushed: u64,
    pub bytes_written: u64,
}

/// Why an acquisition is not deleted.
#[derive(Clone, Copy, PartialEq, Eq, Debug, Structural)]
pub enum DeleteRefusal {
    NotConfirmed,
    NotFound,
}

impl DeleteRefusal {
    pub open spec fn text(self) -> Seq<char> {
        match self {
            DeleteRefusal::NotConfirmed => "Deletion requires confirm=true"@,
            DeleteRefusal::NotFound => "Acquisition not found"@,
        }
    }

    /// The message a client is given.
    pub fn message(&self) -> (r: String)
        ensures
            r@ == self.text(),
    {
        match self {
            DeleteRefusal::NotConfirmed => string_of("Deletion requires confirm=true"),
            DeleteRefusal::NotFound => string_of("Acquisition not found"),
        }
    }
}

/// A progress report on the recording in progress.
pub struct ProgressSnapshot {
    pub scan_id: String,
    pub state: RecordingState,
    pub timestamp_ns: u64,
    pub samples_recorded: u64,
    pub bytes_written: u64,
    pub elapsed_ns: u64,
    /// The stream of reports ends after this one.
    pub finished: bool,
}

/// Progress reports come at the requested interval, but at most every 100 ms.
pub fn progress_interval_ms(requested: u32) -> (r: u32)
    ensures
        r == if requested < 100 { 100 } else { requested },
{
    if requested < 100 {
        100
    } else {
        requested
    }
}

proof fn lemma_index_unique(recs: Seq<AcquisitionRecord>, id: Seq<char>, i: int)
    requires
        ids_distinct(recs),
        0 <= i < recs.len(),
        recs[i].id@ == id,
    ensures
        index_of_id(recs, id) == Some(i),
{
    assert(has_id(recs, id));
    let j = choose|j: int| 0 <= j < recs.len() && #[trigger] recs[j].id@ == id;
    if j < i {
        assert(recs[j].id@ != recs[i].id@);
    } else if j > i {
        assert(recs[i].id@ != recs[j].id@);
    }
}

/// The catalogue after adding scanned files, in order: a file whose id is
/// already catalogued is skipped.
pub open spec fn merged(recs: Seq<AcquisitionRecord>, scanned: Seq<AcquisitionRecord>) -> Seq<AcquisitionRecord>
    decreases scanned.len(),
{
    if scanned.len() == 0 {
        recs
    } else {
        let next = if has_id(recs, scanned[0].id@) {
            recs
        } else {
            recs.push(scanned[0])
        };
        merged(next, scanned.drop_first())
    }
}

/// A request for a page of the catalogue.
pub struct ListAcquisitionsRequest {
    pub name_pattern: Option<String>,
    pub after_timestamp_ns: Option<u64>,
    pub before_timestamp_ns: Option<u64>,
    pub limit: Option<u32>,
    pub offset: Option<u32>,
}

/// One line of a catalogue page.
pub struct AcquisitionSummary {
    pub acquisition_id: String,
    pub name: String,
    pub file_path: String,
    pub file_size_bytes: u64,
    pub created_at_ns: u64,
    pub duration_ns: u64,
    pub sample_count: u64,
}

/// A catalogue page and the number of acquisitions that matched.
pub struct ListAcquisitionsResponse {
    pub acquisitions: Vec<AcquisitionSummary>,
    pub total_count: u32,
}

/// The layout recorded files are reported with.
pub struct Hdf5Structure {
    pub groups: Vec<String>,
    pub dataset_count: u32,
    pub total_elements: u64,
    pub compression: String,
    pub chunk_size: u32,
}

/// Everything the catalogue knows of one acquisition.
pub struct AcquisitionInfo {
    pub acquisition_id: String,
    pub name: String,
    pub file_path: String,
    pub file_size_bytes: u64,
    pub created_at_ns: u64,
    pub duration_ns: u64,
    pub metadata: Vec<(String, String)>,
    pub scan_id: Option<String>,
    pub run_uid: Option<String>,
    pub structure: Hdf5Structure,
}

/// `p` without the `*` characters at either end (`trim_matches('*')`).
pub open spec fn trim_stars(p: Seq<char>) -> Seq<char>
    decreases p.len(),
{
    if p.len() > 0 && p[0] == '*' {
        trim_stars(p.drop_first())
    } else if p.len() > 0 && p.last() == '*' {
        trim_stars(p.drop_last())
    } else {
        p
    }
}

/// An acquisition passes the query's filters: its name holds the pattern
/// (stars at the ends of the pattern ignored) and it was created within
/// the given bounds.
pub open spec fn matches_query(r: AcquisitionRecord, q: ListAcquisitionsRequest) -> bool {
    &&& match q.name_pattern {
        Some(p) => seq_contains(r.name@, trim_stars(p@)),
        None => true,
    }
    &&& match q.after_timestamp_ns {
        Some(a) => r.created_at_ns >= a,
        None => true,
    }
    &&& match q.before_timestamp_ns {
        Some(b) => r.created_at_ns <= b,
        None => true,
    }
}

/// Creation times do not increase along `order`.
pub open spec fn newest_first(recs: Seq<AcquisitionRecord>, order: Seq<usize>) -> bool {
    forall|a: int, b: int|
        0 <= a < b < order.len() ==> recs[#[trigger] order[a] as int].created_at_ns >= recs[#[trigger] order[b] as int].created_at_ns
}

/// `order` lists the positions of the matching acquisitions, each once,
/// newest first.
pub open spec fn is_listing(recs: Seq<AcquisitionRecord>, q: ListAcquisitionsRequest, order: Seq<usize>) -> bool {
    &&& order.no_duplicates()
    &&& forall|k: usize| #[trigger] order.contains(k) <==> (k < recs.len() && matches_query(recs[k as int], q))
    &&& newest_first(recs, order)
}

/// The part of a listing a query asks for: `offset` entries skipped
/// (none by default), then at most `limit` entries (100 by default).
pub open spec fn page(order: Seq<usize>, q: ListAcquisitionsRequest) -> Seq<usize> {
    let offset = match q.offset {
        Some(o) => o as int,
        None => 0,
    };
    let limit = match q.limit {
        Some(l) => l as int,
        None => 100,
    };
    let start = if offset < order.len() { offset } else { order.len() as int };
    let end = if start + limit < order.len() { start + limit } else { order.len() as int };
    order.subrange(start, end)
}

/// The summary line of an acquisition.
pub open spec fn summary_of(r: AcquisitionRecord) -> AcquisitionSummary {
    AcquisitionSummary {
        acquisition_id: r.id,
        name: r.name,
        file_path: r.file_path,
        file_size_bytes: r.file_size_bytes,
        created_at_ns: r.created_at_ns,
        duration_ns: r.duration_ns,
        sample_count: r.sample_count,
    }
}

/// The characters of a pattern without the stars at its ends.
fn trim_star_chars(p: &Vec<char>) -> (r: Vec<char>)
    ensures
        r@ == trim_stars(p@),
{
    let mut lo: usize = 0;
    let mut hi: usize = p.len();
    proof {
        assert(p@.subrange(0, p.len() as int) =~= p@);
    }
    while lo < hi && p[lo] == '*'
        invariant
            lo <= hi <= p.len(),
            trim_stars(p@.subrange(lo as int, hi as int)) == trim_stars(p@),
        decreases hi - lo,
    {
        proof {
            assert(p@.subrange(lo as int, hi as int).drop_first() =~= p@.subrange(lo + 1, hi as int));
        }
        lo = lo + 1;
    }
    while hi > lo && p[hi - 1] == '*'
        invariant
            lo <= hi <= p.len(),
            lo < hi ==> p@[lo as int] != '*',
            trim_stars(p@.subrange(lo as int, hi as int)) == trim_stars(p@),
        decreases hi - lo,
    {
        proof {
            assert(p@.subrange(lo as int, hi as int).drop_last() =~= p@.subrange(lo as int, hi - 1));
        }
        hi = hi - 1;
    }
    proof {
        assert(p@.subrange(lo as int, hi as int).len() == 0 || (p@.subrange(lo as int, hi as int)[0] != '*'
            && p@.subrange(lo as int, hi as int).last() != '*'));
    }
    subrange_chars(p, lo, hi)
}

/// A copy of metadata pairs.
pub(crate) fn copy_metadata(m: &Vec<(String, String)>) -> (r: Vec<(String, String)>)
    ensures
        r@ == m@,
{
    let mut r: Vec<(String, String)> = Vec::new();
    let mut i: usize = 0;
    while i < m.len()
        invariant
            i <= m.len(),
            r@ == m@.take(i as int),
        decreases m.len() - i,
    {
        let (k, v) = &m[i];
        r.push((k.clone(), v.clone()));
        proof {
            assert(m@.take(i + 1) =~= m@.take(i as int).push(m@[i as int]));
        }
        i = i + 1;
    }
    proof {
        assert(m@.take(m.len() as int) =~= m@);
    }
    r
}

/// A copy of an optional text.
fn copy_text(t: &Option<String>) -> (r: Option<String>)
    ensures
        r == *t,
{
    match t {
        Some(s) => Some(s.clone()),
        None => None,
    }
}

/// Everything the catalogue knows of an acquisition, with the fixed layout
/// recorded files are reported with.
pub fn acquisition_info(rec: &AcquisitionRecord) -> (r: AcquisitionInfo)
    ensures
        r.acquisition_id == rec.id,
        r.name == rec.name,
        r.file_path == rec.file_path,
        r.file_size_bytes == rec.file_size_bytes,
        r.created_at_ns == rec.created_at_ns,
        r.duration_ns == rec.duration_ns,
        r.metadata@ == rec.metadata@,
        r.scan_id == rec.scan_id,
        r.run_uid == rec.run_uid,
        r.structure.groups@.len() == 2,
        r.structure.groups@[0]@ == "/measurements"@,
        r.structure.groups@[1]@ == "/metadata"@,
        r.structure.dataset_count == 0,
        r.structure.total_elements == 0,
        r.structure.compression@ == "gzip"@,
        r.structure.chunk_size == 4096,
{
    let mut groups: Vec<String> = Vec::new();
    groups.push(string_of("/measurements"));
    groups.push(string_of("/metadata"));
    AcquisitionInfo {
        acquisition_id: rec.id.clone(),
        name: rec.name.clone(),
        file_path: rec.file_path.clone(),
        file_size_bytes: rec.file_size_bytes,
        created_at_ns: rec.created_at_ns,
        duration_ns: rec.duration_ns,
        metadata: copy_metadata(&rec.metadata),
        scan_id: copy_text(&rec.scan_id),
        run_uid: copy_text(&rec.run_uid),
        structure: Hdf5Structure {
            groups,
            dataset_count: 0,
            total_elements: 0,
            compression: string_of("gzip"),
            chunk_size: 4096,
        },
    }
}

/// Inserting a position at a place where the times before it are not older
/// and the time after it is older keeps a listing newest first.
proof fn lemma_insert_newest_first(recs: Seq<AcquisitionRecord>, order: Seq<usize>, pos: int, x: usize)
    requires
        newest_first(recs, order),
        0 <= pos <= order.len(),
        forall|t: int| 0 <= t < pos ==> recs[#[trigger] order[t] as int].created_at_ns >= recs[x as int].created_at_ns,
        pos < order.len() ==> recs[order[pos] as int].created_at_ns < recs[x as int].created_at_ns,
    ensures
        newest_first(recs, order.insert(pos, x)),
{
    let n = order.insert(pos, x);
    order.insert_ensures(pos, x);
    assert forall|a: int, b: int| 0 <= a < b < n.len() implies recs[#[trigger] n[a] as int].created_at_ns
        >= recs[#[trigger] n[b] as int].created_at_ns by {
        if b < pos {
            assert(n[a] == order[a] && n[b] == order[b]);
        } else if b == pos {
            assert(n[a] == order[a]);
        } else if a < pos {
            assert(n[a] == order[a] && n[b] == order[b - 1]);
            assert(recs[order[a] as int].created_at_ns >= recs[x as int].created_at_ns);
            assert(recs[order[pos] as int].created_at_ns >= recs[order[b - 1] as int].created_at_ns || pos == b - 1);
        } else if a == pos {
            assert(n[b] == order[b - 1]);
            assert(recs[order[pos] as int].created_at_ns >= recs[order[b - 1] as int].created_at_ns || pos == b - 1);
        } else {
            assert(n[a] == order[a - 1] && n[b] == order[b - 1]);
        }
    }
}

/// What a stopped recording is catalogued as comes from how it was started:
/// its name, file, start time and metadata (the stop request's metadata
/// overriding the start request's), whatever the session counted meanwhile.
pub proof fn lemma_stop_catalogues_start(
    req: StartRecordingRequest,
    path: String,
    id: String,
    start_time_ns: u64,
    counted: RecordingSession,
    rec: AcquisitionRecord,
    final_metadata: Seq<(String, String)>,
    end_time_ns: u64,
    file_size_bytes: u64,
    acquisition_id: Seq<char>,
)
    requires
        counted.name == req.name,
        counted.output_path == path,
        counted.start_time_ns == start_time_ns,
        counted.metadata == req.metadata,
        start_time_ns <= end_time_ns,
        is_finished_record(rec, counted, final_metadata, end_time_ns, file_size_bytes, acquisition_id),
    ensures
        rec.name == req.name,
        rec.file_path == path,
        rec.created_at_ns == start_time_ns,
        rec.duration_ns == end_time_ns - start_time_ns,
        metadata_map(rec.metadata@) == metadata_map(req.metadata@).union_prefer_right(metadata_map(final_metadata)),
{
    lemma_metadata_merge(req.metadata@, final_metadata);
}

/// Putting back a taken acquisition restores the catalogue's contents.
pub proof fn lemma_restore_undoes_take(recs: Seq<AcquisitionRecord>, i: int)
    requires
        ids_distinct(recs),
        0 <= i < recs.len(),
    ensures
        stored(recs.remove(i), recs[i]).to_multiset() == recs.to_multiset(),
{
    let rest = recs.remove(i);
    recs.remove_ensures(i);
    assert(!has_id(rest, recs[i].id@)) by {
        if has_id(rest, recs[i].id@) {
            let j = choose|j: int| 0 <= j < rest.len() && #[trigger] rest[j].id@ == recs[i].id@;
            if j < i {
                assert(rest[j] == recs[j]);
            } else {
                assert(rest[j] == recs[j + 1]);
            }
        }
    }
    recs.to_multiset_ensures();
    rest.to_multiset_ensures();
    assert(recs.contains(recs[i]));
    assert(rest.push(recs[i]).to_multiset() =~= recs.to_multiset());
}

/// Adding scanned files never changes or drops what was catalogued.
pub proof fn lemma_merge_keeps_catalogue(recs: Seq<AcquisitionRecord>, scanned: Seq<AcquisitionRecord>)
    ensures
        merged(recs, scanned).len() >= recs.len(),
        merged(recs, scanned).subrange(0, recs.len() as int) == recs,
    decreases scanned.len(),
{
    if scanned.len() > 0 {
        let next = if has_id(recs, scanned[0].id@) {
            recs
        } else {
            recs.push(scanned[0])
        };
        lemma_merge_keeps_catalogue(next, scanned.drop_first());
        assert(merged(recs, scanned).subrange(0, recs.len() as int) =~= merged(next, scanned.drop_first()).subrange(
            0,
            next.len() as int,
        ).subrange(0, recs.len() as int));
    } else {
        assert(recs.subrange(0, recs.len() as int) =~= recs);
    }
}

/// A fresh random identifier in its text form (36 characters), or `None`
/// when the random source fails.
fn fresh_id() -> (r: Option<String>)
    ensures
        r matches Some(id) ==> id@.len() == 36,
{
    match new_uuid() {
        Some(u) => Some(uuid_text(&u)),
        None => None,
    }
}

/// The clock reading used for the recording in progress: a clock before
/// the epoch reads 0, and one before `not_before` reads `not_before`.
fn clock_reading(not_before: u64) -> (r: u64)
    ensures
        r >= not_before,
{
    let t = match unix_nanos() {
        Some(t) => t,
        None => 0,
    };
    if t < not_before {
        not_before
    } else {
        t
    }
}

/// The recording service: its settings, the recording in progress and the
/// catalogue of finished acquisitions.
pub struct StorageServiceImpl {
    settings: StorageSettings,
    current: Option<RecordingSession>,
    acquisitions: Vec<AcquisitionRecord>,
    ring_buffer: bool,
}

impl StorageServiceImpl {
    /// The storage settings.
    pub closed spec fn settings(&self) -> StorageSettings {
        self.settings
    }

    /// The recording in progress.
    pub closed spec fn session(&self) -> Option<RecordingSession> {
        self.current
    }

    /// The catalogue of finished acquisitions.
    pub closed spec fn records(&self) -> Seq<AcquisitionRecord> {
        self.acquisitions@
    }

    /// Recordings are drained from a ring buffer by a file writer.
    pub closed spec fn has_ring_buffer(&self) -> bool {
        self.ring_buffer
    }

    /// No two catalogued acquisitions share an id.
    pub open spec fn wf(&self) -> bool {
        ids_distinct(self.records())
    }

    /// Nothing but the recording in progress differs between the two states.
    pub open spec fn same_but_session(&self, other: &Self) -> bool {
        &&& self.settings() == other.settings()
        &&& self.records() == other.records()
        &&& self.has_ring_buffer() == other.has_ring_buffer()
    }

    /// A service with default settings, no recording and an empty catalogue.
    pub fn new(ring_buffer: bool) -> (r: Self)
        ensures
            r.wf(),
            r.settings().is_default(),
            r.session() is None,
            r.records() == Seq::<AcquisitionRecord>::empty(),
            r.has_ring_buffer() == ring_buffer,
    {
        StorageServiceImpl { settings: StorageSettings::default(), current: None, acquisitions: Vec::new(), ring_buffer }
    }

    /// Change the settings.
    pub fn configure_storage(&mut self, req: ConfigureStorageRequest)
        ensures
            final(self).settings() == old(self).settings().configured(req),
            final(self).session() == old(self).session(),
            final(self).records() == old(self).records(),
            final(self).has_ring_buffer() == old(self).has_ring_buffer(),
    {
        self.settings.configure(req);
    }

    /// The settings as reported to clients.
    pub fn get_storage_config(&self) -> (r: StorageConfig)
        ensures
            r == self.settings().reported(),
    {
        self.settings.report()
    }

    /// The storage settings.
    pub fn current_settings(&self) -> (r: &StorageSettings)
        ensures
            *r == self.settings(),
    {
        &self.settings
    }

    /// Whether a recording is in progress.
    pub fn is_recording(&self) -> (r: bool)
        ensures
            r == self.session() is Some,
    {
        self.current.is_some()
    }

    /// Whether recordings get a file writer.
    pub fn uses_ring_buffer(&self) -> (r: bool)
        ensures
            r == self.has_ring_buffer(),
    {
        self.ring_buffer
    }

    /// When the recording in progress started.
    pub fn recording_started_at(&self) -> (r: Option<u64>)
        ensures
            r == match self.session() {
                Some(s) => Some(s.start_time_ns),
                None => None::<u64>,
            },
    {
        match &self.current {
            Some(s) => Some(s.start_time_ns),
            None => None,
        }
    }

    /// Start a recording at an output path that the caller has checked
    /// (`Err` carries why the check failed). Only one recording runs at a time.
    pub fn start_recording(
        &mut self,
        req: StartRecordingRequest,
        output_path: Result<String, String>,
        recording_id: String,
        start_time_ns: u64,
    ) -> (r: StartRecordingResponse)
        ensures
            old(self).session() is Some ==> start_refusal(r, "Recording already in progress"@) && *final(self) == *old(self),
            (old(self).session() is None && output_path is Err) ==> start_refusal(
                r,
                "Invalid output path: "@ + output_path->Err_0@,
            ) && *final(self) == *old(self),
            (old(self).session() is None && output_path is Ok) ==> {
                &&& r.success
                &&& r.error_message@.len() == 0
                &&& r.recording_id == recording_id
                &&& r.output_path == output_path->Ok_0
                &&& final(self).session() == Some(opened_session(req, output_path->Ok_0, recording_id, start_time_ns))
                &&& final(self).same_but_session(old(self))
            },
    {
        proof {
            reveal_strlit("Recording already in progress");
        }
        if self.current.is_some() {
            return StartRecordingResponse {
                success: false,
                error_message: string_of("Recording already in progress"),
                recording_id: String::new(),
                output_path: String::new(),
            };
        }
        match output_path {
            Err(e) => {
                let mut m = string_of("Invalid output path: ");
                push_str(&mut m, e.as_str());
                StartRecordingResponse { success: false, error_message: m, recording_id: String::new(), output_path: String::new() }
            },
            Ok(p) => {
                let StartRecordingRequest { name, metadata, scan_id, run_uid } = req;
                let session = RecordingSession {
                    id: recording_id.clone(),
                    name,
                    output_path: p.clone(),
                    start_time_ns,
                    samples_recorded: 0,
                    bytes_written: 0,
                    flushes_completed: 0,
                    state: RecordingState::Active,
                    metadata,
                    scan_id,
                    run_uid,
                    has_writer: false,
                };
                self.current = Some(session);
                StartRecordingResponse { success: true, error_message: String::new(), recording_id, output_path: p }
            },
        }
    }

    /// The file writer of the recording in progress is running.
    pub fn attach_writer(&mut self)
        ensures
            final(self).session() == match old(self).session() {
                Some(s) => Some(RecordingSession { has_writer: true, ..s }),
                None => None::<RecordingSession>,
            },
            final(self).same_but_session(old(self)),
    {
        let cur = self.current.take();
        self.current = match cur {
            Some(mut s) => {
                s.has_writer = true;
                Some(s)
            },
            None => None,
        };
    }

    /// The file writer could not be created: the recording is dropped.
    pub fn abandon_start(&mut self, error: String) -> (r: StartRecordingResponse)
        ensures
            start_refusal(r, "Failed to initialize HDF5 writer: "@ + error@),
            final(self).session() is None,
            final(self).same_but_session(old(self)),
    {
        self.current = None;
        let mut m = string_of("Failed to initialize HDF5 writer: ");
        push_str(&mut m, error.as_str());
        StartRecordingResponse { success: false, error_message: m, recording_id: String::new(), output_path: String::new() }
    }

    /// First half of a stop request: check that it names the recording in
    /// progress and mark that recording as finalizing; gives its output
    /// path, or the refusal.
    pub fn begin_stop(&mut self, recording_id: Option<String>) -> (r: Result<String, StopRecordingResponse>)
        ensures
            old(self).session() is None ==> (r matches Err(resp) && stop_refusal(resp, "No active recording"@))
                && *final(self) == *old(self),
            (old(self).session() is Some && !names_session(old(self).session()->Some_0, recording_id)) ==> (r matches Err(
                resp,
            ) && stop_refusal(resp, "Recording "@ + recording_id->Some_0@ + " not found"@)) && *final(self) == *old(self),
            (old(self).session() is Some && names_session(old(self).session()->Some_0, recording_id)) ==> {
                &&& r == Ok::<String, StopRecordingResponse>(old(self).session()->Some_0.output_path)
                &&& final(self).session() == Some(
                    RecordingSession { state: RecordingState::Finalizing, ..old(self).session()->Some_0 },
                )
                &&& final(self).same_but_session(old(self))
            },
    {
        if self.current.is_none() {
            return Err(StopRecordingResponse {
                success: false,
                error_message: string_of("No active recording"),
                acquisition_id: String::new(),
                output_path: String::new(),
                file_size_bytes: 0,
                total_samples: 0,
                duration_ns: 0,
            });
        }
        let mut s = self.current.take().unwrap();
        match &recording_id {
            Some(id) => {
                if !(s.id == *id) {
                    let mut m = string_of("Recording ");
                    push_str(&mut m, id.as_str());
                    push_str(&mut m, " not found");
                    self.current = Some(s);
                    return Err(StopRecordingResponse {
                        success: false,
                        error_message: m,
                        acquisition_id: String::new(),
                        output_path: String::new(),
                        file_size_bytes: 0,
                        total_samples: 0,
                        duration_ns: 0,
                    });
                }
            },
            None => {},
        }
        let path = s.output_path.clone();
        s.state = RecordingState::Finalizing;
        self.current = Some(s);
        Ok(path)
    }

    /// Second half of a stop request, once the writer is flushed: catalogue
    /// the acquisition under a fresh id and end the recording.
    pub fn finish_stop(
        &mut self,
        final_metadata: Vec<(String, String)>,
        end_time_ns: u64,
        file_size_bytes: u64,
        acquisition_id: String,
    ) -> (r: StopRecordingResponse)
        requires
            old(self).wf(),
            old(self).session() is Some,
            old(self).session()->Some_0.start_time_ns <= end_time_ns,
        ensures
            final(self).wf(),
            final(self).session() is None,
            final(self).settings() == old(self).settings(),
            final(self).has_ring_buffer() == old(self).has_ring_buffer(),
            final(self).records() == stored(old(self).records(), final(self).records().last()),
            is_finished_record(
                final(self).records().last(),
                old(self).session()->Some_0,
                final_metadata@,
                end_time_ns,
                file_size_bytes,
                acquisition_id@,
            ),
            r.success,
            r.error_message@.len() == 0,
            r.acquisition_id == acquisition_id,
            r.output_path == old(self).session()->Some_0.output_path,
            r.file_size_bytes == file_size_bytes,
            r.total_samples == old(self).session()->Some_0.samples_recorded,
            r.duration_ns == end_time_ns - old(self).session()->Some_0.start_time_ns,
    {
        let s = self.current.take().unwrap();
        let ghost s0 = s;
        let RecordingSession { id: _, name, output_path, start_time_ns, samples_recorded, metadata, scan_id, run_uid, .. } = s;
        let mut metadata = metadata;
        let mut extra = final_metadata;
        metadata.append(&mut extra);
        let duration = end_time_ns - start_time_ns;
        let path = output_path.clone();
        let rec = AcquisitionRecord {
            id: acquisition_id.clone(),
            name,
            file_path: output_path,
            created_at_ns: start_time_ns,
            duration_ns: duration,
            sample_count: samples_recorded,
            file_size_bytes,
            metadata,
            scan_id,
            run_uid,
        };
        let ghost rec0 = rec;
        self.store(rec);
        proof {
            assert(self.records().last() == rec0);
        }
        StopRecordingResponse {
            success: true,
            error_message: String::new(),
            acquisition_id,
            output_path: path,
            file_size_bytes,
            total_samples: samples_recorded,
            duration_ns: duration,
        }
    }

    /// Position of the acquisition with this id.
    fn find_index(&self, id: &String) -> (r: Option<usize>)
        requires
            self.wf(),
        ensures
            match r {
                Some(i) => i < self.records().len() && index_of_id(self.records(), id@) == Some(i as int),
                None => !has_id(self.records(), id@) && index_of_id(self.records(), id@) is None,
            },
    {
        let mut i: usize = 0;
        while i < self.acquisitions.len()
            invariant
                self.wf(),
                i <= self.acquisitions.len(),
                forall|q: int| 0 <= q < i ==> self.acquisitions@[q].id@ != id@,
            decreases self.acquisitions.len() - i,
        {
            if self.acquisitions[i].id == *id {
                proof {
                    lemma_index_unique(self.records(), id@, i as int);
                }
                return Some(i);
            }
            i = i + 1;
        }
        None
    }

    /// Catalogue `rec`, replacing an acquisition with the same id.
    fn store(&mut self, rec: AcquisitionRecord)
        requires
            old(self).wf(),
        ensures
            final(self).wf(),
            final(self).records() == stored(old(self).records(), rec),
            final(self).session() == old(self).session(),
            final(self).settings() == old(self).settings(),
            final(self).has_ring_buffer() == old(self).has_ring_buffer(),
    {
        let ghost recs = self.records();
        match self.find_index(&rec.id) {
            Some(i) => {
                self.acquisitions.remove(i);
                proof {
                    recs.remove_ensures(i as int);
                    assert forall|q: int| 0 <= q < self.acquisitions@.len() implies #[trigger] self.acquisitions@[q].id@ != rec.id@ by {
                        if q < i {
                            assert(recs[q].id@ != recs[i as int].id@);
                        } else {
                            assert(recs[i as int].id@ != recs[q + 1].id@);
                        }
                    }
                }
            },
            None => {},
        }
        self.acquisitions.push(rec);
    }

    /// Status of the recording in progress, or of the one a request names.
    pub fn get_recording_status(&self, recording_id: Option<String>, now_ns: u64) -> (r: RecordingStatus)
        requires
            (self.session() is Some && names_session(self.session()->Some_0, recording_id)) ==> self.session()->Some_0.start_time_ns
                <= now_ns,
        ensures
            self.session() is None ==> status_is(r, Seq::empty(), RecordingState::Idle, Seq::empty(), 0, 0, 0, 0, 0, Seq::empty()),
            (self.session() is Some && !names_session(self.session()->Some_0, recording_id)) ==> status_is(
                r,
                recording_id->Some_0@,
                RecordingState::Idle,
                Seq::empty(),
                0,
                0,
                0,
                0,
                0,
                "Recording not found"@,
            ),
            (self.session() is Some && names_session(self.session()->Some_0, recording_id)) ==> {
                let s = self.session()->Some_0;
                status_is(
                    r,
                    s.id@,
                    s.state,
                    s.output_path@,
                    s.samples_recorded,
                    s.bytes_written,
                    s.start_time_ns,
                    (now_ns - s.start_time_ns) as u64,
                    s.flushes_completed,
                    Seq::empty(),
                )
            },
    {
        match &self.current {
            None => RecordingStatus {
                recording_id: String::new(),
                state: RecordingState::Idle,
                output_path: String::new(),
                samples_recorded: 0,
                bytes_written: 0,
                start_time_ns: 0,
                elapsed_ns: 0,
                buffer_fill_percent: 0,
                pending_samples: 0,
                flushes_completed: 0,
                error_message: String::new(),
            },
            Some(s) => {
                match &recording_id {
                    Some(id) => {
                        if !(s.id == *id) {
                            return RecordingStatus {
                                recording_id: id.clone(),
                                state: RecordingState::Idle,
                                output_path: String::new(),
                                samples_recorded: 0,
                                bytes_written: 0,
                                start_time_ns: 0,
                                elapsed_ns: 0,
                                buffer_fill_percent: 0,
                                pending_samples: 0,
                                flushes_completed: 0,
                                error_message: string_of("Recording not found"),
                            };
                        }
                    },
                    None => {},
                }
                RecordingStatus {
                    recording_id: s.id.clone(),
                    state: s.state,
                    output_path: s.output_path.clone(),
                    samples_recorded: s.samples_recorded,
                    bytes_written: s.bytes_written,
                    start_time_ns: s.start_time_ns,
                    elapsed_ns: now_ns - s.start_time_ns,
                    buffer_fill_percent: 0,
                    pending_samples: 0,
                    flushes_completed: s.flushes_completed,
                    error_message: String::new(),
                }
            },
        }
    }

    /// Whether a flush request can go to the writer: `Err` is the refusal.
    pub fn check_flush(&self) -> (r: Result<(), FlushToStorageResponse>)
        ensures
            self.session() is None ==> (r matches Err(resp) && !resp.success && resp.error_message@ == "No active recording"@
                && resp.samples_flushed == 0 && resp.bytes_written == 0),
            (self.session() is Some && !self.session()->Some_0.has_writer) ==> (r matches Err(resp) && !resp.success
                && resp.error_message@ == "Recording writer is not initialized"@ && resp.samples_flushed == 0
                && resp.bytes_written == 0),
            (self.session() is Some && self.session()->Some_0.has_writer) ==> r is Ok,
    {
        match &self.current {
            None => Err(
                FlushToStorageResponse {
                    success: false,
                    error_message: string_of("No active recording"),
                    samples_flushed: 0,
                    bytes_written: 0,
                },
            ),
            Some(s) => if s.has_writer {
                Ok(())
            } else {
                Err(
                    FlushToStorageResponse {
                        success: false,
                        error_message: string_of("Recording writer is not initialized"),
                        samples_flushed: 0,
                        bytes_written: 0,
                    },
                )
            },
        }
    }

    /// Count a completed flush of `bytes` bytes.
    fn count_flush(&mut self, bytes: u64)
        ensures
            final(self).session() == match old(self).session() {
                Some(s) => Some(flushed(s, bytes)),
                None => None::<RecordingSession>,
            },
            final(self).same_but_session(old(self)),
            final(self).wf() == old(self).wf(),
    {
        let cur = self.current.take();
        self.current = match cur {
            Some(mut s) => {
                s.bytes_written = s.bytes_written.wrapping_add(bytes);
                s.samples_recorded = s.samples_recorded.wrapping_add(1);
                s.flushes_completed = s.flushes_completed.wrapping_add(1);
                Some(s)
            },
            None => None,
        };
    }

    /// The outcome of a requested flush: the bytes written, or the writer's error.
    pub fn finish_flush(&mut self, outcome: Result<u64, String>) -> (r: FlushToStorageResponse)
        ensures
            outcome matches Ok(bytes) ==> {
                &&& r.success
                &&& r.error_message@.len() == 0
                &&& r.samples_flushed == 1
                &&& r.bytes_written == bytes
                &&& final(self).session() == match old(self).session() {
                    Some(s) => Some(flushed(s, bytes)),
                    None => None::<RecordingSession>,
                }
            },
            outcome matches Err(e) ==> {
                &&& !r.success
                &&& r.error_message@ == "Flush failed: "@ + e@
                &&& r.samples_flushed == 0
                &&& r.bytes_written == 0
                &&& final(self).session() == old(self).session()
            },
            final(self).same_but_session(old(self)),
            final(self).wf() == old(self).wf(),
    {
        match outcome {
            Ok(bytes) => {
                self.count_flush(bytes);
                FlushToStorageResponse { success: true, error_message: String::new(), samples_flushed: 1, bytes_written: bytes }
            },
            Err(e) => {
                let mut m = string_of("Flush failed: ");
                push_str(&mut m, e.as_str());
                FlushToStorageResponse { success: false, error_message: m, samples_flushed: 0, bytes_written: 0 }
            },
        }
    }

    /// A periodic flush by the writer: only one that wrote something counts.
    pub fn record_periodic_flush(&mut self, bytes: u64)
        ensures
            final(self).session() == if bytes > 0 {
                match old(self).session() {
                    Some(s) => Some(flushed(s, bytes)),
                    None => None::<RecordingSession>,
                }
            } else {
                old(self).session()
            },
            final(self).same_but_session(old(self)),
            final(self).wf() == old(self).wf(),
    {
        if bytes > 0 {
            self.count_flush(bytes);
        }
    }

    /// A progress report on the recording with this id, while it runs.
    pub fn recording_progress(&self, scan_id: &String, now_ns: u64) -> (r: Option<ProgressSnapshot>)
        requires
            (self.session() is Some && self.session()->Some_0.id@ == scan_id@) ==> self.session()->Some_0.start_time_ns <= now_ns,
        ensures
            r is Some <==> (self.session() is Some && self.session()->Some_0.id@ == scan_id@),
            r is Some ==> {
                let s = self.session()->Some_0;
                let p = r->Some_0;
                &&& p.scan_id@ == s.id@
                &&& p.state == s.state
                &&& p.timestamp_ns == now_ns
                &&& p.samples_recorded == s.samples_recorded
                &&& p.bytes_written == s.bytes_written
                &&& p.elapsed_ns == now_ns - s.start_time_ns
                &&& p.finished == (s.state == RecordingState::Idle)
            },
    {
        match &self.current {
            Some(s) => if s.id == *scan_id {
                Some(
                    ProgressSnapshot {
                        scan_id: s.id.clone(),
                        state: s.state,
                        timestamp_ns: now_ns,
                        samples_recorded: s.samples_recorded,
                        bytes_written: s.bytes_written,
                        elapsed_ns: now_ns - s.start_time_ns,
                        finished: s.state == RecordingState::Idle,
                    },
                )
            } else {
                None
            },
            None => None,
        }
    }

    /// Add files found on disk to the catalogue; ids already catalogued keep
    /// their entry.
    pub fn merge_scanned(&mut self, scanned: Vec<AcquisitionRecord>)
        requires
            old(self).wf(),
        ensures
            final(self).wf(),
            final(self).records() == merged(old(self).records(), scanned@),
            final(self).session() == old(self).session(),
            final(self).settings() == old(self).settings(),
            final(self).has_ring_buffer() == old(self).has_ring_buffer(),
    {
        let ghost goal = merged(self.records(), scanned@);
        let ghost session0 = self.session();
        let ghost settings0 = self.settings();
        let ghost ring0 = self.has_ring_buffer();
        let mut rest = scanned;
        while rest.len() > 0
            invariant
                self.wf(),
                merged(self.records(), rest@) == goal,
                self.session() == session0,
                self.settings() == settings0,
                self.has_ring_buffer() == ring0,
            decreases rest.len(),
        {
            let ghost rest0 = rest@;
            let rec = rest.remove(0);
            proof {
                assert(rest@ =~= rest0.drop_first());
            }
            match self.find_index(&rec.id) {
                Some(_) => {},
                None => {
                    self.acquisitions.push(rec);
                },
            }
        }
    }

    /// The acquisition with this id.
    pub fn get_acquisition_info(&self, id: &String) -> (r: Option<&AcquisitionRecord>)
        requires
            self.wf(),
        ensures
            r is Some <==> has_id(self.records(), id@),
            r is Some ==> *r->Some_0 == self.records()[index_of_id(self.records(), id@)->Some_0],
    {
        match self.find_index(id) {
            Some(i) => Some(&self.acquisitions[i]),
            None => None,
        }
    }

    /// Take an acquisition out of the catalogue to delete its file; only a
    /// confirmed request for a catalogued id is served.
    pub fn take_acquisition(&mut self, id: &String, confirm: bool) -> (r: Result<AcquisitionRecord, DeleteRefusal>)
        requires
            old(self).wf(),
        ensures
            final(self).wf(),
            !confirm ==> r == Err::<AcquisitionRecord, DeleteRefusal>(DeleteRefusal::NotConfirmed) && *final(self) == *old(self),
            (confirm && !has_id(old(self).records(), id@)) ==> r == Err::<AcquisitionRecord, DeleteRefusal>(
                DeleteRefusal::NotFound,
            ) && *final(self) == *old(self),
            (confirm && has_id(old(self).records(), id@)) ==> {
                let i = index_of_id(old(self).records(), id@)->Some_0;
                &&& r == Ok::<AcquisitionRecord, DeleteRefusal>(old(self).records()[i])
                &&& final(self).records() == old(self).records().remove(i)
                &&& final(self).session() == old(self).session()
                &&& final(self).settings() == old(self).settings()
                &&& final(self).has_ring_buffer() == old(self).has_ring_buffer()
            },
    {
        if !confirm {
            return Err(DeleteRefusal::NotConfirmed);
        }
        match self.find_index(id) {
            None => Err(DeleteRefusal::NotFound),
            Some(i) => {
                let ghost recs = self.records();
                let rec = self.acquisitions.remove(i);
                proof {
                    recs.remove_ensures(i as int);
                    assert forall|a: int, b: int| 0 <= a < b < self.records().len() implies self.records()[a].id@
                        != self.records()[b].id@ by {
                        let a0 = if a < i { a } else { a + 1 };
                        let b0 = if b < i { b } else { b + 1 };
                        assert(self.records()[a] == recs[a0] && self.records()[b] == recs[b0]);
                    }
                }
                Ok(rec)
            },
        }
    }

    /// Put back an acquisition whose file could not be deleted.
    pub fn restore_acquisition(&mut self, rec: AcquisitionRecord)
        requires
            old(self).wf(),
        ensures
            final(self).wf(),
            final(self).records() == stored(old(self).records(), rec),
            final(self).session() == old(self).session(),
            final(self).settings() == old(self).settings(),
            final(self).has_ring_buffer() == old(self).has_ring_buffer(),
    {
        self.store(rec);
    }

    /// A page of the catalogue: the matching acquisitions, newest first,
    /// and how many matched (as a 32-bit count).
    pub fn list_acquisitions(&self, q: &ListAcquisitionsRequest) -> (r: ListAcquisitionsResponse)
        ensures
            exists|order: Seq<usize>|
                {
                    &&& is_listing(self.records(), *q, order)
                    &&& r.total_count == order.len() as u32
                    &&& r.acquisitions@ == page(order, *q).map_values(|k: usize| summary_of(self.records()[k as int]))
                },
    {
        let recs = &self.acquisitions;
        let pattern: Option<Vec<char>> = match &q.name_pattern {
            Some(p) => Some(trim_star_chars(&chars_of(p.as_str()))),
            None => None,
        };
        let mut order: Vec<usize> = Vec::new();
        let mut i: usize = 0;
        while i < recs.len()
            invariant
                i <= recs.len(),
                *recs == self.acquisitions,
                pattern matches Some(pv) ==> q.name_pattern matches Some(p) && pv@ == trim_stars(p@),
                pattern is None <==> q.name_pattern is None,
                order@.no_duplicates(),
                forall|t: int| 0 <= t < order.len() ==> order@[t] < i,
                forall|k: usize| #[trigger] order@.contains(k) <==> (k < i && matches_query(recs@[k as int], *q)),
                newest_first(recs@, order@),
            decreases recs.len() - i,
        {
            let rec = &recs[i];
            let name_ok = match &pattern {
                Some(pv) => contains_chars(&chars_of(rec.name.as_str()), pv),
                None => true,
            };
            let after_ok = match q.after_timestamp_ns {
                Some(a) => rec.created_at_ns >= a,
                None => true,
            };
            let before_ok = match q.before_timestamp_ns {
                Some(b) => rec.created_at_ns <= b,
                None => true,
            };
            if name_ok && after_ok && before_ok {
                let key = rec.created_at_ns;
                let mut pos: usize = 0;
                while pos < order.len() && recs[order[pos]].created_at_ns >= key
                    invariant
                        pos <= order.len(),
                        forall|t: int| 0 <= t < order.len() ==> order@[t] < recs.len(),
                        forall|t: int| 0 <= t < pos ==> recs@[#[trigger] order@[t] as int].created_at_ns >= key,
                    decreases order.len() - pos,
                {
                    pos = pos + 1;
                }
                let ghost order0 = order@;
                proof {
                    lemma_insert_newest_first(recs@, order0, pos as int, i);
                    order0.insert_ensures(pos as int, i);
                }
                order.insert(pos, i);
                proof {
                    assert forall|k: usize| #[trigger] order@.contains(k) <==> (k < i + 1 && matches_query(recs@[k as int], *q)) by {
                        if order@.contains(k) {
                            let t = choose|t: int| 0 <= t < order@.len() && order@[t] == k;
                            if t < pos {
                                assert(order0[t] == k && order0.contains(k));
                            } else if t > pos {
                                assert(order0[t - 1] == k && order0.contains(k));
                            }
                        }
                        if k < i && matches_query(recs@[k as int], *q) {
                            assert(order0.contains(k));
                            let t = choose|t: int| 0 <= t < order0.len() && order0[t] == k;
                            if t < pos {
                                assert(order@[t] == k);
                            } else {
                                assert(order@[t + 1] == k);
                            }
                        }
                        if k == i {
                            assert(order@[pos as int] == k);
                        }
                    }
                    assert forall|a: int, b: int| 0 <= a < order@.len() && 0 <= b < order@.len() && a != b implies order@[a]
                        != order@[b] by {
                        let a0 = if a < pos { a } else { a - 1 };
                        let b0 = if b < pos { b } else { b - 1 };
                        if a != pos && b != pos {
                            assert(order@[a] == order0[a0] && order@[b] == order0[b0]);
                        } else if a == pos {
                            assert(order@[b] == order0[b0]);
                        } else {
                            assert(order@[a] == order0[a0]);
                        }
                    }
                }
            } else {
                proof {
                    assert forall|k: usize| #[trigger] order@.contains(k) <==> (k < i + 1 && matches_query(recs@[k as int], *q)) by {
                        if k == i {
                            assert(!matches_query(recs@[k as int], *q));
                            if order@.contains(k) {
                                let t = choose|t: int| 0 <= t < order@.len() && order@[t] == k;
                            }
                        }
                    }
                }
            }
            i = i + 1;
        }
        let total = order.len();
        let offset: usize = match q.offset {
            Some(o) => o as usize,
            None => 0,
        };
        let limit: usize = match q.limit {
            Some(l) => l as usize,
            None => 100,
        };
        let start = if offset < total { offset } else { total };
        let end = if limit < total - start { start + limit } else { total };
        let mut page_out: Vec<AcquisitionSummary> = Vec::new();
        let mut j: usize = start;
        while j < end
            invariant
                start <= j <= end <= order.len(),
                forall|t: int| 0 <= t < order.len() ==> order@[t] < recs.len(),
                *recs == self.acquisitions,
                page_out@ == order@.subrange(start as int, j as int).map_values(|k: usize| summary_of(recs@[k as int])),
            decreases end - j,
        {
            let rec = &recs[order[j]];
            page_out.push(
                AcquisitionSummary {
                    acquisition_id: rec.id.clone(),
                    name: rec.name.clone(),
                    file_path: rec.file_path.clone(),
                    file_size_bytes: rec.file_size_bytes,
                    created_at_ns: rec.created_at_ns,
                    duration_ns: rec.duration_ns,
                    sample_count: rec.sample_count,
                },
            );
            proof {
                assert(order@.subrange(start as int, j + 1).map_values(|k: usize| summary_of(recs@[k as int])) =~= order@.subrange(
                    start as int,
                    j as int,
                ).map_values(|k: usize| summary_of(recs@[k as int])).push(summary_of(recs@[order@[j as int] as int])));
            }
            j = j + 1;
        }
        proof {
            assert(page(order@, *q) == order@.subrange(start as int, end as int));
            assert(is_listing(self.records(), *q, order@));
            assert(page_out@ =~= page(order@, *q).map_values(|k: usize| summary_of(self.records()[k as int])));
        }
        ListAcquisitionsResponse { acquisitions: page_out, total_count: total as u32 }
    }

    /// Start a recording now under a fresh random id, at an output path the
    /// caller has checked. A clock before the Unix epoch counts as time 0.
    /// When no fresh id can be drawn (the random source failed), the start
    /// is refused and nothing changes.
    pub fn start_recording_now(&mut self, req: StartRecordingRequest, output_path: Result<String, String>) -> (r: StartRecordingResponse)
        ensures
            old(self).session() is Some ==> start_refusal(r, "Recording already in progress"@) && *final(self) == *old(self),
            (old(self).session() is None && output_path is Err) ==> start_refusal(
                r,
                "Invalid output path: "@ + output_path->Err_0@,
            ) && *final(self) == *old(self),
            (old(self).session() is None && output_path is Ok && !r.success) ==> start_refusal(
                r,
                "Failed to generate recording id"@,
            ) && *final(self) == *old(self),
            (old(self).session() is None && output_path is Ok && r.success) ==> {
                &&& r.success
                &&& r.error_message@.len() == 0
                &&& r.recording_id@.len() == 36
                &&& r.output_path == output_path->Ok_0
                &&& final(self).session() is Some
                &&& final(self).session()->Some_0 == opened_session(
                    req,
                    output_path->Ok_0,
                    r.recording_id,
                    final(self).session()->Some_0.start_time_ns,
                )
                &&& final(self).same_but_session(old(self))
            },
    {
        if self.current.is_some() || output_path.is_err() {
            return self.start_recording(req, output_path, String::new(), 0);
        }
        let id = match fresh_id() {
            Some(id) => id,
            None => {
                return StartRecordingResponse {
                    success: false,
                    error_message: string_of("Failed to generate recording id"),
                    recording_id: String::new(),
                    output_path: String::new(),
                };
            },
        };
        let start = clock_reading(0);
        self.start_recording(req, output_path, id, start)
    }

    /// Second half of a stop request, now: the acquisition is catalogued
    /// under a fresh random id, with the time since the start as duration (a
    /// clock that reads earlier than the start gives duration 0). When no
    /// fresh id can be drawn (the random source failed), the stop is refused
    /// and nothing changes, so it can be asked again.
    pub fn finish_stop_now(&mut self, final_metadata: Vec<(String, String)>, file_size_bytes: u64) -> (r: StopRecordingResponse)
        requires
            old(self).wf(),
            old(self).session() is Some,
        ensures
            final(self).wf(),
            !r.success ==> stop_refusal(r, "Failed to generate acquisition id"@) && *final(self) == *old(self),
            r.success ==> {
                &&& final(self).session() is None
                &&& final(self).settings() == old(self).settings()
                &&& final(self).has_ring_buffer() == old(self).has_ring_buffer()
                &&& final(self).records() == stored(old(self).records(), final(self).records().last())
                &&& exists|end_time_ns: u64|
                    end_time_ns >= old(self).session()->Some_0.start_time_ns && #[trigger] is_finished_record(
                        final(self).records().last(),
                        old(self).session()->Some_0,
                        final_metadata@,
                        end_time_ns,
                        file_size_bytes,
                        r.acquisition_id@,
                    )
                &&& r.error_message@.len() == 0
                &&& r.acquisition_id@.len() == 36
                &&& r.output_path == old(self).session()->Some_0.output_path
                &&& r.file_size_bytes == file_size_bytes
                &&& r.total_samples == old(self).session()->Some_0.samples_recorded
                &&& r.duration_ns == final(self).records().last().duration_ns
            },
    {
        let id = match fresh_id() {
            Some(id) => id,
            None => {
                return StopRecordingResponse {
                    success: false,
                    error_message: string_of("Failed to generate acquisition id"),
                    acquisition_id: String::new(),
                    output_path: String::new(),
                    file_size_bytes: 0,
                    total_samples: 0,
                    duration_ns: 0,
                };
            },
        };
        let start = match &self.current {
            Some(s) => s.start_time_ns,
            None => 0,
        };
        let end = clock_reading(start);
        self.finish_stop(final_metadata, end, file_size_bytes, id)
    }

    /// Status of the recording in progress, or of the one a request names,
    /// now (a clock that reads earlier than the start gives elapsed time 0).
    pub fn get_recording_status_now(&self, recording_id: Option<String>) -> (r: RecordingStatus)
        ensures
            self.session() is None ==> status_is(r, Seq::empty(), RecordingState::Idle, Seq::empty(), 0, 0, 0, 0, 0, Seq::empty()),
            (self.session() is Some && !names_session(self.session()->Some_0, recording_id)) ==> status_is(
                r,
                recording_id->Some_0@,
                RecordingState::Idle,
                Seq::empty(),
                0,
                0,
                0,
                0,
                0,
                "Recording not found"@,
            ),
            (self.session() is Some && names_session(self.session()->Some_0, recording_id)) ==> {
                let s = self.session()->Some_0;
                status_is(
                    r,
                    s.id@,
                    s.state,
                    s.output_path@,
                    s.samples_recorded,
                    s.bytes_written,
                    s.start_time_ns,
                    r.elapsed_ns,
                    s.flushes_completed,
                    Seq::empty(),
                )
            },
    {
        let start = match &self.current {
            Some(s) => s.start_time_ns,
            None => 0,
        };
        let now = clock_reading(start);
        self.get_recording_status(recording_id, now)
    }

    /// A progress report on the recording with this id, now, while it runs.
    pub fn recording_progress_now(&self, scan_id: &String) -> (r: Option<ProgressSnapshot>)
        ensures
            r is Some <==> (self.session() is Some && self.session()->Some_0.id@ == scan_id@),
            r is Some ==> {
                let s = self.session()->Some_0;
                let p = r->Some_0;
                &&& p.scan_id@ == s.id@
                &&& p.state == s.state
                &&& p.timestamp_ns >= s.start_time_ns
                &&& p.samples_recorded == s.samples_recorded
                &&& p.bytes_written == s.bytes_written
                &&& p.elapsed_ns == p.timestamp_ns - s.start_time_ns
                &&& p.finished == (s.state == RecordingState::Idle)
            },
    {
        let start = match &self.current {
            Some(s) => s.start_time_ns,
            None => 0,
        };
        let now = clock_reading(start);
        self.recording_progress(scan_id, now)
    }
}

} // verus!
