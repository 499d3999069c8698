//! Log entries, their levels and categories, status indicators, and the
//! bounded log history with its filter and export.

use vstd::prelude::*;
use std::collections::VecDeque;
use vstd::string::StringSliceAdditionalSpecFns;
use crate::graph::nodes::Real;
use crate::text::{chars_of, contains_chars, decimal, push_decimal, push_str, seq_contains, string_of};

verus! {

/// Most log entries kept in memory.
pub const MAX_LOG_ENTRIES: usize = 10000;

/// ASCII upper-case letters to lower case; every other byte unchanged
/// (`u8::to_ascii_lowercase`).
pub open spec fn ascii_lower(b: u8) -> u8 {
    if 65 <= b <= 90 {
        (b + 32) as u8
    } else {
        b
    }
}

/// `needle` occurs in `haystack` when bytes are compared ignoring ASCII case.
pub open spec fn contains_folded(haystack: Seq<u8>, needle: Seq<u8>) -> bool {
    exists|start: int|
        0 <= start && start + needle.len() <= haystack.len() && #[trigger] folded_match(haystack, needle, start)
}

/// `needle` matches `haystack` at `start`, ignoring ASCII case.
pub open spec fn folded_match(haystack: Seq<u8>, needle: Seq<u8>, start: int) -> bool {
    forall|i: int| 0 <= i < needle.len() ==> ascii_lower(#[trigger] haystack[start + i]) == ascii_lower(needle[i])
}

fn lower_byte(b: u8) -> (r: u8)
    ensures
        r == ascii_lower(b),
{
    if 65 <= b && b <= 90 {
        b + 32
    } else {
        b
    }
}

/// Case-insensitive (ASCII) substring search over the UTF-8 bytes of the two
/// strings; non-ASCII bytes compare exactly. An empty needle always matches.
pub fn contains_ignore_ascii_case(haystack: &str, needle: &str) -> (r: bool)
    ensures
        r == contains_folded(haystack.spec_bytes(), needle.spec_bytes()),
{
    let h = haystack.as_bytes();
    let n = needle.as_bytes();
    if n.len() == 0 {
        proof {
            assert(folded_match(h@, n@, 0));
        }
        return true;
    }
    if n.len() > h.len() {
        return false;
    }
    let last = h.len() - n.len();
    let mut start: usize = 0;
    while start <= last
        invariant
            h@ == haystack.spec_bytes(),
            n@ == needle.spec_bytes(),
            last == h.len() - n.len(),
            n.len() <= h.len(),
            start <= last + 1,
            forall|s: int| 0 <= s < start ==> !#[trigger] folded_match(h@, n@, s),
        decreases last + 1 - start,
    {
        let mut i: usize = 0;
        let mut ok = true;
        while i < n.len()
            invariant
                start <= last,
                last == h.len() - n.len(),
                i <= n.len(),
                ok == (forall|q: int| 0 <= q < i ==> ascii_lower(#[trigger] h@[start + q]) == ascii_lower(n@[q])),
            decreases n.len() - i,
        {
            if lower_byte(h[start + i]) != lower_byte(n[i]) {
                ok = false;
            }
            i = i + 1;
        }
        if ok {
            proof {
                assert(folded_match(h@, n@, start as int));
            }
            return true;
        }
        proof {
            let q = choose|q: int| 0 <= q < n.len() && !(ascii_lower(#[trigger] h@[start + q]) == ascii_lower(n@[q]));
            assert(!folded_match(h@, n@, start as int));
        }
        start = start + 1;
    }
    proof {
        assert forall|s: int| 0 <= s && s + n@.len() <= h@.len() implies !#[trigger] folded_match(h@, n@, s) by {
            assert(s < start);
        }
    }
    false
}

/// Log severity, most severe first.
#[derive(Debug, Clone, Copy, PartialEq, Eq, PartialOrd, Ord, Hash, Structural)]
pub enum LogLevel {
    Error,
    Warn,
    Info,
    Debug,
    Trace,
}

impl LogLevel {
    /// The display colour, as red, green and blue.
    pub fn color(&self) -> (r: (u8, u8, u8))
        ensures
            r == match *self {
                LogLevel::Error => (255u8, 100u8, 100u8),
                LogLevel::Warn => (255u8, 200u8, 100u8),
                LogLevel::Info => (100u8, 200u8, 255u8),
                LogLevel::Debug => (180u8, 180u8, 180u8),
                LogLevel::Trace => (140u8, 140u8, 140u8),
            },
    {
        match self {
            LogLevel::Error => (255, 100, 100),
            LogLevel::Warn => (255, 200, 100),
            LogLevel::Info => (100, 200, 255),
            LogLevel::Debug => (180, 180, 180),
            LogLevel::Trace => (140, 140, 140),
        }
    }

    /// Position in severity order: 0 for errors up to 4 for traces.
    pub open spec fn rank(self) -> nat {
        match self {
            LogLevel::Error => 0,
            LogLevel::Warn => 1,
            LogLevel::Info => 2,
            LogLevel::Debug => 3,
            LogLevel::Trace => 4,
        }
    }

    /// Position in severity order (0 = error, 4 = trace).
    pub fn index(&self) -> (r: usize)
        ensures
            r == self.rank(),
    {
        match self {
            LogLevel::Error => 0,
            LogLevel::Warn => 1,
            LogLevel::Info => 2,
            LogLevel::Debug => 3,
            LogLevel::Trace => 4,
        }
    }

    pub fn label(&self) -> (r: &'static str)
        ensures
            r@ == match *self {
                LogLevel::Error => "ERROR"@,
                LogLevel::Warn => "WARN"@,
                LogLevel::Info => "INFO"@,
                LogLevel::Debug => "DEBUG"@,
                LogLevel::Trace => "TRACE"@,
            },
    {
        match self {
            LogLevel::Error => "ERROR",
            LogLevel::Warn => "WARN",
            LogLevel::Info => "INFO",
            LogLevel::Debug => "DEBUG",
            LogLevel::Trace => "TRACE",
        }
    }

    /// One-letter label for compact display.
    pub fn short_label(&self) -> (r: &'static str)
        ensures
            r@ == match *self {
                LogLevel::Error => "E"@,
                LogLevel::Warn => "W"@,
                LogLevel::Info => "I"@,
                LogLevel::Debug => "D"@,
                LogLevel::Trace => "T"@,
            },
    {
        match self {
            LogLevel::Error => "E",
            LogLevel::Warn => "W",
            LogLevel::Info => "I",
            LogLevel::Debug => "D",
            LogLevel::Trace => "T",
        }
    }

    /// All levels, most severe first.
    pub fn all() -> (r: Vec<LogLevel>)
        ensures
            r@ == seq![LogLevel::Error, LogLevel::Warn, LogLevel::Info, LogLevel::Debug, LogLevel::Trace],
    {
        vec![LogLevel::Error, LogLevel::Warn, LogLevel::Info, LogLevel::Debug, LogLevel::Trace]
    }
}

/// Subsystem a log entry belongs to.
#[derive(Debug, Clone, Copy, PartialEq, Eq, Hash, Structural)]
pub enum LogCategory {
    /// Every entry (as a filter).
    All,
    Connection,
    Devices,
    Streaming,
    Scans,
    Storage,
    Scripts,
    Modules,
    System,
}

impl Default for LogCategory {
    fn default() -> (r: LogCategory)
        ensures
            r == LogCategory::All,
    {
        LogCategory::All
    }
}

/// What `str::to_lowercase` returns for `s` (Unicode lower-case mapping).
pub uninterp spec fn lowercased(s: Seq<char>) -> Seq<char>;

/// `str::to_lowercase`.
#[verifier::external_body]
pub(crate) fn to_lowercase(s: &str) -> (r: String)
    ensures
        r@ == lowercased(s@),
{
    s.to_lowercase()
}

/// Does the lower-cased source name contain any of the words?
pub open spec fn mentions_any(s: Seq<char>, words: Seq<Seq<char>>) -> bool {
    exists|i: int| 0 <= i < words.len() && seq_contains(s, #[trigger] words[i])
}

/// Category for a lower-cased source name, by the first group of keywords it contains.
pub open spec fn category_for(lower: Seq<char>) -> LogCategory {
    if mentions_any(lower, seq!["connection"@, "reconnect"@, "health"@]) {
        LogCategory::Connection
    } else if mentions_any(lower, seq!["image_viewer"@, "signal_plotter"@, "stream"@, "frame"@]) {
        LogCategory::Streaming
    } else if mentions_any(lower, seq!["device"@, "hardware"@, "instrument"@, "driver"@]) {
        LogCategory::Devices
    } else if mentions_any(lower, seq!["scan"@]) {
        LogCategory::Scans
    } else if mentions_any(lower, seq!["storage"@, "hdf5"@, "ring_buffer"@]) {
        LogCategory::Storage
    } else if mentions_any(lower, seq!["script"@, "rhai"@]) {
        LogCategory::Scripts
    } else if mentions_any(lower, seq!["module"@]) {
        LogCategory::Modules
    } else {
        LogCategory::System
    }
}

/// Does `s` contain any of the given words? (executable)
pub(crate) fn contains_any(s: &Vec<char>, words: &Vec<&str>) -> (r: bool)
    ensures
        r == mentions_any(s@, words@.map_values(|w: &str| w@)),
{
    let ghost ws = words@.map_values(|w: &str| w@);
    let mut k: usize = 0;
    while k < words.len()
        invariant
            k <= words.len(),
            ws == words@.map_values(|w: &str| w@),
            forall|i: int| 0 <= i < k ==> !seq_contains(s@, #[trigger] ws[i]),
        decreases words.len() - k,
    {
        let w = chars_of(words[k]);
        if contains_chars(s, &w) {
            proof {
                assert(seq_contains(s@, ws[k as int]));
            }
            return true;
        }
        k = k + 1;
    }
    false
}

impl LogCategory {
    /// The display colour, as red, green and blue.
    pub fn color(&self) -> (r: (u8, u8, u8))
        ensures
            r == match *self {
                LogCategory::All => (255u8, 255u8, 255u8),
                LogCategory::Connection => (100u8, 200u8, 255u8),
                LogCategory::Devices => (255u8, 180u8, 100u8),
                LogCategory::Streaming => (180u8, 100u8, 255u8),
                LogCategory::Scans => (100u8, 255u8, 180u8),
                LogCategory::Storage => (255u8, 255u8, 100u8),
                LogCategory::Scripts => (255u8, 100u8, 180u8),
                LogCategory::Modules => (180u8, 255u8, 100u8),
                LogCategory::System => (180u8, 180u8, 180u8),
            },
    {
        match self {
            LogCategory::All => (255, 255, 255),
            LogCategory::Connection => (100, 200, 255),
            LogCategory::Devices => (255, 180, 100),
            LogCategory::Streaming => (180, 100, 255),
            LogCategory::Scans => (100, 255, 180),
            LogCategory::Storage => (255, 255, 100),
            LogCategory::Scripts => (255, 100, 180),
            LogCategory::Modules => (180, 255, 100),
            LogCategory::System => (180, 180, 180),
        }
    }

    pub fn label(&self) -> (r: &'static str)
        ensures
            r@ == match *self {
                LogCategory::All => "All"@,
                LogCategory::Connection => "Connection"@,
                LogCategory::Devices => "Devices"@,
                LogCategory::Streaming => "Streaming"@,
                LogCategory::Scans => "Scans"@,
                LogCategory::Storage => "Storage"@,
                LogCategory::Scripts => "Scripts"@,
                LogCategory::Modules => "Modules"@,
                LogCategory::System => "System"@,
            },
    {
        match self {
            LogCategory::All => "All",
            LogCategory::Connection => "Connection",
            LogCategory::Devices => "Devices",
            LogCategory::Streaming => "Streaming",
            LogCategory::Scans => "Scans",
            LogCategory::Storage => "Storage",
            LogCategory::Scripts => "Scripts",
            LogCategory::Modules => "Modules",
            LogCategory::System => "System",
        }
    }

    /// Every category but `All`, for iteration.
    pub fn all_categories() -> (r: Vec<LogCategory>)
        ensures
            r@ == seq![
                LogCategory::Connection,
                LogCategory::Devices,
                LogCategory::Streaming,
                LogCategory::Scans,
                LogCategory::Storage,
                LogCategory::Scripts,
                LogCategory::Modules,
                LogCategory::System,
            ],
    {
        vec![
            LogCategory::Connection,
            LogCategory::Devices,
            LogCategory::Streaming,
            LogCategory::Scans,
            LogCategory::Storage,
            LogCategory::Scripts,
            LogCategory::Modules,
            LogCategory::System,
        ]
    }

    /// Category for a source name that is already lower case.
    pub fn from_lowercase_source(lower: &str) -> (r: LogCategory)
        ensures
            r == category_for(lower@),
    {
        let s = chars_of(lower);
        let connection = vec!["connection", "reconnect", "health"];
        let streaming = vec!["image_viewer", "signal_plotter", "stream", "frame"];
        let devices = vec!["device", "hardware", "instrument", "driver"];
        let scans = vec!["scan"];
        let storage = vec!["storage", "hdf5", "ring_buffer"];
        let scripts = vec!["script", "rhai"];
        let modules = vec!["module"];
        proof {
            assert(connection@.map_values(|w: &str| w@) =~= seq!["connection"@, "reconnect"@, "health"@]);
            assert(streaming@.map_values(|w: &str| w@) =~= seq!["image_viewer"@, "signal_plotter"@, "stream"@, "frame"@]);
            assert(devices@.map_values(|w: &str| w@) =~= seq!["device"@, "hardware"@, "instrument"@, "driver"@]);
            assert(scans@.map_values(|w: &str| w@) =~= seq!["scan"@]);
            assert(storage@.map_values(|w: &str| w@) =~= seq!["storage"@, "hdf5"@, "ring_buffer"@]);
            assert(scripts@.map_values(|w: &str| w@) =~= seq!["script"@, "rhai"@]);
            assert(modules@.map_values(|w: &str| w@) =~= seq!["module"@]);
        }
        if contains_any(&s, &connection) {
            LogCategory::Connection
        } else if contains_any(&s, &streaming) {
            LogCategory::Streaming
        } else if contains_any(&s, &devices) {
            LogCategory::Devices
        } else if contains_any(&s, &scans) {
            LogCategory::Scans
        } else if contains_any(&s, &storage) {
            LogCategory::Storage
        } else if contains_any(&s, &scripts) {
            LogCategory::Scripts
        } else if contains_any(&s, &modules) {
            LogCategory::Modules
        } else {
            LogCategory::System
        }
    }

    /// Category for a log source name, by keywords in its lower-case form.
    pub fn from_source(source: &str) -> (r: LogCategory)
        ensures
            r == category_for(lowercased(source@)),
    {
        let lower = to_lowercase(source);
        LogCategory::from_lowercase_source(lower.as_str())
    }
}

/// One log entry.
#[derive(Debug)]
pub struct LogEntry {
    /// Entry id, in order of arrival.
    pub id: u64,
    /// Seconds since the panel started.
    pub timestamp_secs: Real,
    pub level: LogLevel,
    pub category: LogCategory,
    /// Source module or component.
    pub source: String,
    pub message: String,
}

impl LogEntry {
    /// A new entry; its category comes from its source.
    pub fn new(id: u64, timestamp_secs: Real, level: LogLevel, source: &str, message: &str) -> (r: LogEntry)
        ensures
            r.id == id,
            r.timestamp_secs == timestamp_secs,
            r.level == level,
            r.category == category_for(lowercased(source@)),
            r.source@ == source@,
            r.message@ == message@,
    {
        LogEntry {
            id,
            timestamp_secs,
            level,
            category: LogCategory::from_source(source),
            source: string_of(source),
            message: string_of(message),
        }
    }

    /// The export line "[time] LEVEL [Category] [source] message", with the
    /// time already formatted.
    pub fn to_export_line(&self, timestamp_text: &str) -> (r: String)
        ensures
            r@ == export_line(*self, timestamp_text@),
    {
        let mut r = string_of("[");
        push_str(&mut r, timestamp_text);
        push_str(&mut r, "] ");
        push_str(&mut r, self.level.label());
        push_str(&mut r, " [");
        push_str(&mut r, self.category.label());
        push_str(&mut r, "] [");
        push_str(&mut r, self.source.as_str());
        push_str(&mut r, "] ");
        push_str(&mut r, self.message.as_str());
        r
    }
}

/// Label text of a level.
pub open spec fn level_label(l: LogLevel) -> Seq<char> {
    match l {
        LogLevel::Error => "ERROR"@,
        LogLevel::Warn => "WARN"@,
        LogLevel::Info => "INFO"@,
        LogLevel::Debug => "DEBUG"@,
        LogLevel::Trace => "TRACE"@,
    }
}

/// Label text of a category.
pub open spec fn category_label(c: LogCategory) -> Seq<char> {
    match c {
        LogCategory::All => "All"@,
        LogCategory::Connection => "Connection"@,
        LogCategory::Devices => "Devices"@,
        LogCategory::Streaming => "Streaming"@,
        LogCategory::Scans => "Scans"@,
        LogCategory::Storage => "Storage"@,
        LogCategory::Scripts => "Scripts"@,
        LogCategory::Modules => "Modules"@,
        LogCategory::System => "System"@,
    }
}

/// The export line of an entry.
pub open spec fn export_line(e: LogEntry, time: Seq<char>) -> Seq<char> {
    "["@ + time + "] "@ + level_label(e.level) + " ["@ + category_label(e.category) + "] ["@ + e.source@
        + "] "@ + e.message@
}

/// Connection indicator.
#[derive(Debug, Clone, Copy, PartialEq, Eq, Structural)]
pub enum ConnectionStatus {
    Disconnected,
    Connecting,
    Connected,
    Error,
}

impl Default for ConnectionStatus {
    fn default() -> (r: ConnectionStatus)
        ensures
            r == ConnectionStatus::Disconnected,
    {
        ConnectionStatus::Disconnected
    }
}

impl ConnectionStatus {
    /// The indicator colour, as red, green and blue.
    pub fn color(&self) -> (r: (u8, u8, u8))
        ensures
            r == match *self {
                ConnectionStatus::Disconnected => (160u8, 160u8, 160u8),
                ConnectionStatus::Connecting => (255u8, 255u8, 0u8),
                ConnectionStatus::Connected => (0u8, 255u8, 0u8),
                ConnectionStatus::Error => (255u8, 0u8, 0u8),
            },
    {
        match self {
            ConnectionStatus::Disconnected => (160, 160, 160),
            ConnectionStatus::Connecting => (255, 255, 0),
            ConnectionStatus::Connected => (0, 255, 0),
            ConnectionStatus::Error => (255, 0, 0),
        }
    }

    pub fn label(&self) -> (r: &'static str)
        ensures
            r@ == match *self {
                ConnectionStatus::Disconnected => "Disconnected"@,
                ConnectionStatus::Connecting => "Connecting..."@,
                ConnectionStatus::Connected => "Connected"@,
                ConnectionStatus::Error => "Error"@,
            },
    {
        match self {
            ConnectionStatus::Disconnected => "Disconnected",
            ConnectionStatus::Connecting => "Connecting...",
            ConnectionStatus::Connected => "Connected",
            ConnectionStatus::Error => "Error",
        }
    }
}

/// System indicator.
#[derive(Debug, Clone, Copy, PartialEq, Eq, Structural)]
pub enum SystemStatus {
    Idle,
    Busy,
    Warning,
    Error,
}

impl Default for SystemStatus {
    fn default() -> (r: SystemStatus)
        ensures
            r == SystemStatus::Idle,
    {
        SystemStatus::Idle
    }
}

impl SystemStatus {
    /// The indicator colour, as red, green and blue.
    pub fn color(&self) -> (r: (u8, u8, u8))
        ensures
            r == match *self {
                SystemStatus::Idle => (100u8, 200u8, 100u8),
                SystemStatus::Busy => (100u8, 150u8, 255u8),
                SystemStatus::Warning => (255u8, 255u8, 0u8),
                SystemStatus::Error => (255u8, 0u8, 0u8),
            },
    {
        match self {
            SystemStatus::Idle => (100, 200, 100),
            SystemStatus::Busy => (100, 150, 255),
            SystemStatus::Warning => (255, 255, 0),
            SystemStatus::Error => (255, 0, 0),
        }
    }

    pub fn label(&self) -> (r: &'static str)
        ensures
            r@ == match *self {
                SystemStatus::Idle => "Idle"@,
                SystemStatus::Busy => "Busy"@,
                SystemStatus::Warning => "Warning"@,
                SystemStatus::Error => "Error"@,
            },
    {
        match self {
            SystemStatus::Idle => "Idle",
            SystemStatus::Busy => "Busy",
            SystemStatus::Warning => "Warning",
            SystemStatus::Error => "Error",
        }
    }
}

/// Experiment indicator.
#[derive(Debug, Clone, Copy, PartialEq, Eq, Structural)]
pub enum ExperimentStatus {
    NoExperiment,
    Queued,
    Running,
    Paused,
    Completed,
    Failed,
}

impl Default for ExperimentStatus {
    fn default() -> (r: ExperimentStatus)
        ensures
            r == ExperimentStatus::NoExperiment,
    {
        ExperimentStatus::NoExperiment
    }
}

impl ExperimentStatus {
    /// The indicator colour, as red, green and blue.
    pub fn color(&self) -> (r: (u8, u8, u8))
        ensures
            r == match *self {
                ExperimentStatus::NoExperiment => (160u8, 160u8, 160u8),
                ExperimentStatus::Queued => (180u8, 180u8, 100u8),
                ExperimentStatus::Running => (100u8, 200u8, 100u8),
                ExperimentStatus::Paused => (255u8, 255u8, 0u8),
                ExperimentStatus::Completed => (100u8, 255u8, 100u8),
                ExperimentStatus::Failed => (255u8, 0u8, 0u8),
            },
    {
        match self {
            ExperimentStatus::NoExperiment => (160, 160, 160),
            ExperimentStatus::Queued => (180, 180, 100),
            ExperimentStatus::Running => (100, 200, 100),
            ExperimentStatus::Paused => (255, 255, 0),
            ExperimentStatus::Completed => (100, 255, 100),
            ExperimentStatus::Failed => (255, 0, 0),
        }
    }

    pub fn label(&self) -> (r: &'static str)
        ensures
            r@ == match *self {
                ExperimentStatus::NoExperiment => "No Experiment"@,
                ExperimentStatus::Queued => "Queued"@,
                ExperimentStatus::Running => "Running"@,
                ExperimentStatus::Paused => "Paused"@,
                ExperimentStatus::Completed => "Completed"@,
                ExperimentStatus::Failed => "Failed"@,
            },
    {
        match self {
            ExperimentStatus::NoExperiment => "No Experiment",
            ExperimentStatus::Queued => "Queued",
            ExperimentStatus::Running => "Running",
            ExperimentStatus::Paused => "Paused",
            ExperimentStatus::Completed => "Completed",
            ExperimentStatus::Failed => "Failed",
        }
    }
}

/// UTF-8 bytes of a text.
pub open spec fn utf8(s: Seq<char>) -> Seq<u8> {
    vstd::utf8::encode_utf8(s)
}

/// Filter settings of the log view.
#[derive(Debug)]
pub struct LogFilter {
    /// Least severe level shown.
    pub min_level: LogLevel,
    pub selected_category: LogCategory,
    /// Text searched in message and source, ignoring ASCII case.
    pub search_filter: String,
    /// Which levels are shown, by severity rank.
    pub level_enabled: [bool; 5],
}

impl Default for LogFilter {
    fn default() -> (r: LogFilter)
        ensures
            r.min_level == LogLevel::Debug,
            r.selected_category == LogCategory::All,
            r.search_filter@.len() == 0,
            r.level_enabled@ == seq![true, true, true, true, true],
    {
        LogFilter {
            min_level: LogLevel::Debug,
            selected_category: LogCategory::All,
            search_filter: String::new(),
            level_enabled: [true, true, true, true, true],
        }
    }
}

/// Does the filter let the entry through?
pub open spec fn passes(f: LogFilter, e: LogEntry) -> bool {
    &&& (f.selected_category == LogCategory::All || e.category == f.selected_category)
    &&& f.level_enabled@[e.level.rank() as int]
    &&& e.level.rank() <= f.min_level.rank()
    &&& (f.search_filter@.len() == 0 || contains_folded(utf8(e.message@), utf8(f.search_filter@))
        || contains_folded(utf8(e.source@), utf8(f.search_filter@)))
}

impl LogFilter {
    /// Does the filter let the entry through?
    pub fn accepts(&self, e: &LogEntry) -> (r: bool)
        ensures
            r == passes(*self, *e),
    {
        if !(self.selected_category == LogCategory::All || e.category == self.selected_category) {
            return false;
        }
        if !self.level_enabled[e.level.index()] {
            return false;
        }
        if e.level.index() > self.min_level.index() {
            return false;
        }
        if self.search_filter.as_str().unicode_len() > 0 {
            let search = self.search_filter.as_str();
            if !(contains_ignore_ascii_case(e.message.as_str(), search) || contains_ignore_ascii_case(
                e.source.as_str(),
                search,
            )) {
                return false;
            }
        }
        true
    }
}

/// `idx` lists, in increasing order, exactly the positions of the entries
/// the filter lets through.
pub open spec fn lists_passing(entries: Seq<LogEntry>, f: LogFilter, idx: Seq<usize>) -> bool {
    &&& forall|a: int, b: int| 0 <= a < b < idx.len() ==> idx[a] < idx[b]
    &&& forall|a: int| 0 <= a < idx.len() ==> #[trigger] idx[a] < entries.len() && passes(f, entries[idx[a] as int])
    &&& forall|i: int| 0 <= i < entries.len() && passes(f, #[trigger] entries[i]) ==> idx.contains(i as usize)
}

/// State of the logging panel: the bounded history of log entries (oldest
/// first), the view filter and the status indicators.
#[derive(Debug)]
pub struct LoggingPanel {
    entries: VecDeque<LogEntry>,
    next_id: u64,
    pub filter: LogFilter,
    pub connection_status: ConnectionStatus,
    pub system_status: SystemStatus,
    pub experiment_status: ExperimentStatus,
    pub experiment_name: Option<String>,
}

impl LoggingPanel {
    /// The entries, oldest first.
    pub closed spec fn entries(&self) -> Seq<LogEntry> {
        self.entries@
    }

    /// Id of the next entry.
    pub closed spec fn next_id(&self) -> nat {
        self.next_id as nat
    }

    /// The view filter.
    pub closed spec fn filter_of(&self) -> LogFilter {
        self.filter
    }

    /// The connection, system and experiment indicators and the experiment name.
    pub closed spec fn indicators(&self) -> (ConnectionStatus, SystemStatus, ExperimentStatus, Option<String>) {
        (self.connection_status, self.system_status, self.experiment_status, self.experiment_name)
    }

    /// At most `MAX_LOG_ENTRIES` entries are kept.
    pub open spec fn wf(&self) -> bool {
        self.entries().len() <= MAX_LOG_ENTRIES
    }

    /// An empty panel showing every category down to debug level, with
    /// default status indicators.
    pub fn new() -> (r: LoggingPanel)
        ensures
            r.wf(),
            r.entries().len() == 0,
            r.next_id() == 0,
            r.filter_of().min_level == LogLevel::Debug,
            r.filter_of().selected_category == LogCategory::All,
            r.filter_of().search_filter@.len() == 0,
            r.filter_of().level_enabled@ == seq![true, true, true, true, true],
            r.indicators().0 == ConnectionStatus::Disconnected,
            r.indicators().1 == SystemStatus::Idle,
            r.indicators().2 == ExperimentStatus::NoExperiment,
            r.indicators().3 is None,
    {
        LoggingPanel {
            entries: VecDeque::new(),
            next_id: 0,
            filter: LogFilter::default(),
            connection_status: ConnectionStatus::Disconnected,
            system_status: SystemStatus::Idle,
            experiment_status: ExperimentStatus::NoExperiment,
            experiment_name: None,
        }
    }

    /// `self` is `before` with one entry recorded: the next id, the level,
    /// time, category, source and message given; when the history was full
    /// its oldest entry is gone. The filter and the indicators stay.
    pub open spec fn logged(&self, before: &Self, level: LogLevel, source: Seq<char>, message: Seq<char>, timestamp_secs: Real) -> bool {
        &&& self.next_id() == before.next_id() + 1
        &&& ({
            let e = self.entries().last();
            &&& e.id == before.next_id()
            &&& e.level == level
            &&& e.timestamp_secs == timestamp_secs
            &&& e.category == category_for(lowercased(source))
            &&& e.source@ == source
            &&& e.message@ == message
        })
        &&& self.entries().len() == if before.entries().len() < MAX_LOG_ENTRIES {
            before.entries().len() + 1
        } else {
            MAX_LOG_ENTRIES as nat
        }
        &&& self.entries() == if before.entries().len() < MAX_LOG_ENTRIES {
            before.entries()
        } else {
            before.entries().drop_first()
        }.push(self.entries().last())
        &&& self.filter_of() == before.filter_of()
        &&& self.indicators() == before.indicators()
    }

    /// Record an entry; when the history is full the oldest entry goes.
    pub fn log(&mut self, level: LogLevel, source: &str, message: &str, timestamp_secs: Real)
        requires
            old(self).wf(),
            old(self).next_id() < u64::MAX,
        ensures
            final(self).wf(),
            final(self).logged(old(self), level, source@, message@, timestamp_secs),
    {
        let entry = LogEntry::new(self.next_id, timestamp_secs, level, source, message);
        self.next_id = self.next_id + 1;
        let ghost before = self.entries@;
        self.entries.push_back(entry);
        if self.entries.len() > MAX_LOG_ENTRIES {
            let _ = self.entries.pop_front();
            proof {
                assert(self.entries@ =~= before.drop_first().push(self.entries@.last()));
            }
        } else {
            proof {
                assert(self.entries@ =~= before.push(self.entries@.last()));
            }
        }
    }

    /// Record an error entry.
    pub fn error(&mut self, source: &str, message: &str, timestamp_secs: Real)
        requires
            old(self).wf(),
            old(self).next_id() < u64::MAX,
        ensures
            final(self).wf(),
            final(self).logged(old(self), LogLevel::Error, source@, message@, timestamp_secs),
    {
        self.log(LogLevel::Error, source, message, timestamp_secs);
    }

    /// Record a warning entry.
    pub fn warn(&mut self, source: &str, message: &str, timestamp_secs: Real)
        requires
            old(self).wf(),
            old(self).next_id() < u64::MAX,
        ensures
            final(self).wf(),
            final(self).logged(old(self), LogLevel::Warn, source@, message@, timestamp_secs),
    {
        self.log(LogLevel::Warn, source, message, timestamp_secs);
    }

    /// Record an info entry.
    pub fn info(&mut self, source: &str, message: &str, timestamp_secs: Real)
        requires
            old(self).wf(),
            old(self).next_id() < u64::MAX,
        ensures
            final(self).wf(),
            final(self).logged(old(self), LogLevel::Info, source@, message@, timestamp_secs),
    {
        self.log(LogLevel::Info, source, message, timestamp_secs);
    }

    /// Record a debug entry.
    pub fn debug(&mut self, source: &str, message: &str, timestamp_secs: Real)
        requires
            old(self).wf(),
            old(self).next_id() < u64::MAX,
        ensures
            final(self).wf(),
            final(self).logged(old(self), LogLevel::Debug, source@, message@, timestamp_secs),
    {
        self.log(LogLevel::Debug, source, message, timestamp_secs);
    }

    /// Record a trace entry.
    pub fn trace(&mut self, source: &str, message: &str, timestamp_secs: Real)
        requires
            old(self).wf(),
            old(self).next_id() < u64::MAX,
        ensures
            final(self).wf(),
            final(self).logged(old(self), LogLevel::Trace, source@, message@, timestamp_secs),
    {
        self.log(LogLevel::Trace, source, message, timestamp_secs);
    }

    /// Forget all entries.
    pub fn clear(&mut self)
        ensures
            final(self).entries().len() == 0,
            final(self).next_id() == old(self).next_id(),
            final(self).filter_of() == old(self).filter_of(),
            final(self).indicators() == old(self).indicators(),
    {
        self.entries.clear();
    }

    /// The id the next entry gets.
    pub fn next_entry_id(&self) -> (r: u64)
        ensures
            r == self.next_id(),
    {
        self.next_id
    }

    /// Number of entries kept.
    pub fn entry_count(&self) -> (r: usize)
        ensures
            r == self.entries().len(),
    {
        self.entries.len()
    }

    /// The entry at a position, oldest first.
    pub fn entry(&self, i: usize) -> (r: &LogEntry)
        requires
            i < self.entries().len(),
        ensures
            *r == self.entries()[i as int],
    {
        &self.entries[i]
    }

    /// Positions of the entries the panel's filter lets through, oldest first.
    pub fn filtered_entries(&self) -> (r: Vec<usize>)
        ensures
            lists_passing(self.entries(), self.filter_of(), r@),
    {
        let f = &self.filter;
        let mut r: Vec<usize> = Vec::new();
        let mut i: usize = 0;
        while i < self.entries.len()
            invariant
                i <= self.entries@.len(),
                forall|a: int, b: int| 0 <= a < b < r@.len() ==> r@[a] < r@[b],
                forall|a: int| 0 <= a < r@.len() ==> #[trigger] r@[a] < i && passes(*f, self.entries@[r@[a] as int]),
                forall|j: int| 0 <= j < i && passes(*f, #[trigger] self.entries@[j]) ==> r@.contains(j as usize),
            decreases self.entries@.len() - i,
        {
            if f.accepts(&self.entries[i]) {
                let ghost before = r@;
                r.push(i);
                proof {
                    assert forall|j: int| 0 <= j < i + 1 && passes(*f, #[trigger] self.entries@[j]) implies r@.contains(j as usize) by {
                        if j < i {
                            let k = choose|k: int| 0 <= k < before.len() && before[k] == j as usize;
                            assert(r@[k] == j as usize);
                        } else {
                            assert(r@[r@.len() - 1] == i);
                        }
                    }
                }
            }
            i = i + 1;
        }
        r
    }

    /// The export text: a header naming the filter and the number of entries,
    /// then one line per entry the filter lets through. `timestamp_texts[i]`
    /// is the formatted time of entry `i`.
    pub fn generate_export(&self, timestamp_texts: &Vec<String>) -> (r: String)
        requires
            timestamp_texts@.len() == self.entries().len(),
        ensures
            exists|idx: Seq<usize>| {
                &&& lists_passing(self.entries(), self.filter_of(), idx)
                &&& r@ == export_header(idx.len(), self.filter_of()) + export_lines(self.entries(), timestamp_texts@, idx)
            },
    {
        let f = &self.filter;
        let idx = self.filtered_entries();
        let mut out = string_of("# rust-daq Log Export\n# Entries: ");
        push_decimal(&mut out, idx.len() as u64);
        push_str(&mut out, "\n# Filter: category=");
        push_str(&mut out, f.selected_category.label());
        push_str(&mut out, ", level>=");
        push_str(&mut out, f.min_level.label());
        push_str(&mut out, ", search='");
        push_str(&mut out, f.search_filter.as_str());
        push_str(&mut out, "'\n#\n");
        let ghost header = out@;
        let mut k: usize = 0;
        while k < idx.len()
            invariant
                timestamp_texts@.len() == self.entries@.len(),
                lists_passing(self.entries@, self.filter, idx@),
                k <= idx.len(),
                out@ == header + export_lines(self.entries@, timestamp_texts@, idx@.take(k as int)),
            decreases idx.len() - k,
        {
            let i = idx[k];
            let line = self.entries[i].to_export_line(timestamp_texts[i].as_str());
            push_str(&mut out, line.as_str());
            push_str(&mut out, "\n");
            proof {
                assert(idx@.take(k as int + 1).drop_last() =~= idx@.take(k as int));
            }
            k = k + 1;
        }
        proof {
            assert(idx@.take(idx.len() as int) =~= idx@);
        }
        out
    }
}

/// The export header for `count` entries under a filter.
pub open spec fn export_header(count: nat, f: LogFilter) -> Seq<char> {
    "# rust-daq Log Export\n# Entries: "@ + decimal(count) + "\n# Filter: category="@ + category_label(
        f.selected_category,
    ) + ", level>="@ + level_label(f.min_level) + ", search='"@ + f.search_filter@ + "'\n#\n"@
}

/// Export lines of the listed entries, each ended by a newline.
pub open spec fn export_lines(entries: Seq<LogEntry>, times: Seq<String>, idx: Seq<usize>) -> Seq<char>
    decreases idx.len(),
{
    if idx.len() == 0 {
        Seq::empty()
    } else {
        export_lines(entries, times, idx.drop_last()) + export_line(entries[idx.last() as int], times[idx.last() as int]@)
            + "\n"@
    }
}

/// The search text matches in the source as well as in the message: an
/// entry whose category and level the filter admits passes as soon as the
/// search text occurs in its source or in its message (here, byte for byte;
/// the filter also ignores ASCII case), even when the other field does not
/// hold it.
pub proof fn lemma_search_finds_source_and_message(f: LogFilter, e: LogEntry, start: int, in_source: bool)
    requires
        f.selected_category == LogCategory::All || e.category == f.selected_category,
        f.level_enabled@[e.level.rank() as int],
        e.level.rank() <= f.min_level.rank(),
        0 <= start,
        in_source ==> start + utf8(f.search_filter@).len() <= utf8(e.source@).len() && utf8(e.source@).subrange(
            start,
            start + utf8(f.search_filter@).len(),
        ) == utf8(f.search_filter@),
        !in_source ==> start + utf8(f.search_filter@).len() <= utf8(e.message@).len() && utf8(e.message@).subrange(
            start,
            start + utf8(f.search_filter@).len(),
        ) == utf8(f.search_filter@),
    ensures
        passes(f, e),
{
    let needle = utf8(f.search_filter@);
    let hay = if in_source { utf8(e.source@) } else { utf8(e.message@) };
    assert forall|i: int| 0 <= i < needle.len() implies ascii_lower(#[trigger] hay[start + i]) == ascii_lower(needle[i]) by {
        assert(hay.subrange(start, start + needle.len())[i] == hay[start + i]);
    }
    assert(folded_match(hay, needle, start));
}

} // verus!
