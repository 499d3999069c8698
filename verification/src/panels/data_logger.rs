//! The data logger's buffer of readings, its channel filter and its pages.

use std::collections::VecDeque;
use vstd::prelude::*;
use crate::graph::nodes::Real;
use crate::panels::logging::{lowercased, to_lowercase};
use crate::text::{chars_of, contains_chars, decimal, has_prefix, push_decimal, seq_contains, starts_with, string_of};

verus! {

/// At most this many readings are kept; older ones are dropped.
pub const MAX_LOG_ROWS: usize = 10_000;

/// One logged reading. Times and values are the bit patterns of `f64`s.
pub struct LogEntry {
    pub timestamp: Real,
    pub channel: String,
    pub value: Real,
    pub unit: String,
}

/// Bit pattern of `1.0`.
pub open spec fn one_bits() -> u64 {
    0x3FF0_0000_0000_0000
}

impl LogEntry {
    pub fn new(timestamp: Real, channel: String, value: Real, unit: String) -> (r: Self)
        ensures
            r.timestamp == timestamp,
            r.channel == channel,
            r.value == value,
            r.unit == unit,
    {
        LogEntry { timestamp, channel, value, unit }
    }

    /// A voltage on analog input `channel`: channel `AI<n>`, unit `V`.
    pub fn voltage(timestamp: Real, channel: u32, voltage: Real) -> (r: Self)
        ensures
            r.timestamp == timestamp,
            r.channel@ == "AI"@ + decimal(channel as nat),
            r.value == voltage,
            r.unit@ == "V"@,
    {
        let mut name = string_of("AI");
        push_decimal(&mut name, channel as u64);
        LogEntry { timestamp, channel: name, value: voltage, unit: string_of("V") }
    }

    /// A count of counter `counter`, given as the real it converts to:
    /// channel `CTR<n>`, unit `counts`.
    pub fn counter(timestamp: Real, counter: u32, count: Real) -> (r: Self)
        ensures
            r.timestamp == timestamp,
            r.channel@ == "CTR"@ + decimal(counter as nat),
            r.value == count,
            r.unit@ == "counts"@,
    {
        let mut name = string_of("CTR");
        push_decimal(&mut name, counter as u64);
        LogEntry { timestamp, channel: name, value: count, unit: string_of("counts") }
    }

    /// The state of digital pin `pin`: channel `DIO<n>`, value 1 or 0, no unit.
    pub fn digital(timestamp: Real, pin: u32, state: bool) -> (r: Self)
        ensures
            r.timestamp == timestamp,
            r.channel@ == "DIO"@ + decimal(pin as nat),
            r.value.bits == if state { one_bits() } else { 0 },
            r.unit@.len() == 0,
    {
        let mut name = string_of("DIO");
        push_decimal(&mut name, pin as u64);
        LogEntry {
            timestamp,
            channel: name,
            value: Real { bits: if state { 0x3FF0_0000_0000_0000 } else { 0 } },
            unit: String::new(),
        }
    }
}

/// The kind of a channel, by its name.
#[derive(Debug, Clone, Copy, PartialEq, Eq, Structural)]
pub enum ChannelKind {
    AnalogIn,
    AnalogOut,
    Digital,
    Counter,
    Other,
}

impl ChannelKind {
    /// The display colour of a channel of this kind, as red, green and blue.
    pub fn color(&self) -> (r: (u8, u8, u8))
        ensures
            r == match *self {
                ChannelKind::AnalogIn => (100u8, 200u8, 255u8),
                ChannelKind::AnalogOut => (255u8, 200u8, 100u8),
                ChannelKind::Digital => (100u8, 255u8, 150u8),
                ChannelKind::Counter => (255u8, 150u8, 200u8),
                ChannelKind::Other => (160u8, 160u8, 160u8),
            },
    {
        match self {
            ChannelKind::AnalogIn => (100, 200, 255),
            ChannelKind::AnalogOut => (255, 200, 100),
            ChannelKind::Digital => (100, 255, 150),
            ChannelKind::Counter => (255, 150, 200),
            ChannelKind::Other => (160, 160, 160),
        }
    }
}

/// Channels are told apart by their name's prefix: `AI`, `AO`, `DIO`, `CTR`.
pub open spec fn kind_of(channel: Seq<char>) -> ChannelKind {
    if starts_with(channel, "AI"@) {
        ChannelKind::AnalogIn
    } else if starts_with(channel, "AO"@) {
        ChannelKind::AnalogOut
    } else if starts_with(channel, "DIO"@) {
        ChannelKind::Digital
    } else if starts_with(channel, "CTR"@) {
        ChannelKind::Counter
    } else {
        ChannelKind::Other
    }
}

/// The kind of a channel.
pub fn channel_kind(channel: &str) -> (r: ChannelKind)
    ensures
        r == kind_of(channel@),
{
    let c = chars_of(channel);
    if has_prefix(&c, &chars_of("AI")) {
        ChannelKind::AnalogIn
    } else if has_prefix(&c, &chars_of("AO")) {
        ChannelKind::AnalogOut
    } else if has_prefix(&c, &chars_of("DIO")) {
        ChannelKind::Digital
    } else if has_prefix(&c, &chars_of("CTR")) {
        ChannelKind::Counter
    } else {
        ChannelKind::Other
    }
}

/// A reading passes the channel filter: an empty filter passes everything;
/// otherwise the lower-cased channel holds the lower-cased filter.
pub open spec fn passes(e: LogEntry, filter: Seq<char>) -> bool {
    filter.len() == 0 || seq_contains(lowercased(e.channel@), lowercased(filter))
}

/// Positions of the readings that pass the filter, in order.
pub open spec fn matching(entries: Seq<LogEntry>, filter: Seq<char>) -> Seq<usize>
    decreases entries.len(),
{
    if entries.len() == 0 {
        Seq::empty()
    } else {
        let earlier = matching(entries.drop_last(), filter);
        if passes(entries.last(), filter) {
            earlier.push((entries.len() - 1) as usize)
        } else {
            earlier
        }
    }
}

/// The number of pages `rows` filtered rows fill: always at least one.
pub open spec fn page_total(rows: nat, rows_per_page: nat) -> nat {
    (if rows > 0 { (rows - 1) as nat } else { 0 }) / rows_per_page + 1
}

/// Everything the logger holds.
pub struct LoggerState {
    pub entries: Seq<LogEntry>,
    pub auto_scroll: bool,
    pub logging_enabled: bool,
    pub filter: Seq<char>,
    pub rows_per_page: nat,
    pub current_page: nat,
    pub total_entries: nat,
    pub dropped_entries: nat,
}

/// The data logger: a bounded buffer of readings with a filter and pages.
pub struct DataLoggerPanel {
    buffer: VecDeque<LogEntry>,
    auto_scroll: bool,
    logging_enabled: bool,
    channel_filter: String,
    rows_per_page: usize,
    current_page: usize,
    total_entries: u64,
    dropped_entries: u64,
}

impl DataLoggerPanel {
    pub closed spec fn state(&self) -> LoggerState {
        LoggerState {
            entries: self.buffer@,
            auto_scroll: self.auto_scroll,
            logging_enabled: self.logging_enabled,
            filter: self.channel_filter@,
            rows_per_page: self.rows_per_page as nat,
            current_page: self.current_page as nat,
            total_entries: self.total_entries as nat,
            dropped_entries: self.dropped_entries as nat,
        }
    }

    /// Pages hold at least one row; at most `MAX_LOG_ROWS` readings are
    /// kept; every reading counted is either kept or dropped.
    pub open spec fn wf(&self) -> bool {
        &&& self.state().rows_per_page > 0
        &&& self.state().entries.len() <= MAX_LOG_ROWS
        &&& self.state().dropped_entries + self.state().entries.len() == self.state().total_entries
    }

    /// The positions of the readings that pass the filter.
    pub open spec fn shown(&self) -> Seq<usize> {
        matching(self.state().entries, self.state().filter)
    }

    /// An empty logger that logs and follows new readings, 100 rows a page.
    pub fn new() -> (r: Self)
        ensures
            r.wf(),
            r.state() == (LoggerState {
                entries: Seq::empty(),
                auto_scroll: true,
                logging_enabled: true,
                filter: Seq::empty(),
                rows_per_page: 100,
                current_page: 0,
                total_entries: 0,
                dropped_entries: 0,
            }),
    {
        let r = DataLoggerPanel {
            buffer: VecDeque::new(),
            auto_scroll: true,
            logging_enabled: true,
            channel_filter: String::new(),
            rows_per_page: 100,
            current_page: 0,
            total_entries: 0,
            dropped_entries: 0,
        };
        proof {
            assert(r.state().entries =~= Seq::empty());
        }
        r
    }

    /// Take in one reading. While logging is paused it is ignored; otherwise
    /// it is counted and kept, the oldest reading dropped when the buffer is
    /// full. Returns whether it was counted.
    pub fn receive(&mut self, entry: LogEntry) -> (counted: bool)
        requires
            old(self).wf(),
            old(self).state().total_entries < u64::MAX,
        ensures
            final(self).wf(),
            counted == old(self).state().logging_enabled,
            !counted ==> final(self).state() == old(self).state(),
            counted ==> {
                let before = old(self).state();
                let full = before.entries.len() == MAX_LOG_ROWS;
                final(self).state() == LoggerState {
                    entries: if full { before.entries.push(entry).drop_first() } else { before.entries.push(entry) },
                    total_entries: before.total_entries + 1,
                    dropped_entries: if full { before.dropped_entries + 1 } else { before.dropped_entries },
                    ..before
                }
            },
    {
        if !self.logging_enabled {
            return false;
        }
        let ghost before = self.buffer@;
        self.total_entries = self.total_entries + 1;
        self.buffer.push_back(entry);
        if self.buffer.len() > MAX_LOG_ROWS {
            let _ = self.buffer.pop_front();
            self.dropped_entries = self.dropped_entries + 1;
            proof {
                assert(self.buffer@ =~= before.push(entry).drop_first());
            }
        }
        true
    }

    /// After taking in readings: when following, show the last page of the
    /// filtered readings.
    pub fn follow_latest(&mut self)
        requires
            old(self).wf(),
        ensures
            final(self).wf(),
            final(self).state() == if old(self).state().auto_scroll && old(self).shown().len() > 0 {
                LoggerState {
                    current_page: ((old(self).shown().len() - 1) as nat / old(self).state().rows_per_page) as nat,
                    ..old(self).state()
                }
            } else {
                old(self).state()
            },
    {
        if self.auto_scroll && self.buffer.len() > 0 {
            let shown = self.filtered_indices();
            if shown.len() > 0 {
                self.current_page = (shown.len() - 1) / self.rows_per_page;
            }
        } else {
            proof {
                if self.buffer@.len() == 0 {
                    assert(self.shown().len() == 0);
                }
            }
        }
    }

    /// The positions of the readings that pass the filter.
    pub fn filtered_indices(&self) -> (r: Vec<usize>)
        ensures
            r@ == self.shown(),
    {
        let filter_empty = self.channel_filter.as_str().is_empty();
        let needle = chars_of(to_lowercase(self.channel_filter.as_str()).as_str());
        let mut r: Vec<usize> = Vec::new();
        let mut i: usize = 0;
        while i < self.buffer.len()
            invariant
                i <= self.buffer@.len(),
                filter_empty == (self.channel_filter@.len() == 0),
                needle@ == lowercased(self.channel_filter@),
                r@ == matching(self.buffer@.take(i as int), self.channel_filter@),
            decreases self.buffer@.len() - i,
        {
            let e = &self.buffer[i];
            let keep = filter_empty || contains_chars(&chars_of(to_lowercase(e.channel.as_str()).as_str()), &needle);
            proof {
                let t = self.buffer@.take(i + 1);
                assert(t.drop_last() =~= self.buffer@.take(i as int));
                assert(t.last() == self.buffer@[i as int]);
            }
            if keep {
                r.push(i);
            }
            i = i + 1;
        }
        proof {
            assert(self.buffer@.take(self.buffer@.len() as int) =~= self.buffer@);
        }
        r
    }

    /// Empty the buffer and reset the counts and the page.
    pub fn clear(&mut self)
        requires
            old(self).wf(),
        ensures
            final(self).wf(),
            final(self).state() == (LoggerState {
                entries: Seq::empty(),
                total_entries: 0,
                dropped_entries: 0,
                current_page: 0,
                ..old(self).state()
            }),
    {
        self.buffer.clear();
        self.total_entries = 0;
        self.dropped_entries = 0;
        self.current_page = 0;
        proof {
            assert(self.state().entries =~= Seq::empty());
        }
    }

    /// The number of pages of filtered readings.
    pub fn page_count(&self) -> (r: usize)
        requires
            self.wf(),
        ensures
            r == page_total(self.shown().len(), self.state().rows_per_page),
    {
        let rows = self.filtered_indices().len();
        let last = if rows > 0 { rows - 1 } else { 0 };
        last / self.rows_per_page + 1
    }

    /// The rows of the current page (a page past the end shows the last
    /// one): positions of readings, in order.
    pub fn page_rows(&self) -> (r: Vec<usize>)
        requires
            self.wf(),
        ensures
            ({
                let n = self.shown().len();
                let rpp = self.state().rows_per_page;
                let last_page = (page_total(n, rpp) - 1) as nat;
                let page = if self.state().current_page < last_page { self.state().current_page } else { last_page };
                let start = page * rpp;
                let end: int = if start + rpp < n { (start + rpp) as int } else { n as int };
                &&& start <= n
                &&& r@ == self.shown().subrange(start as int, end)
            }),
    {
        let shown = self.filtered_indices();
        let n = shown.len();
        let rpp = self.rows_per_page;
        let last_page = (if n > 0 { n - 1 } else { 0 }) / rpp;
        let page = if self.current_page < last_page { self.current_page } else { last_page };
        proof {
            let q = (if n > 0 { n - 1 } else { 0 }) as int;
            assert(page * rpp <= q) by (nonlinear_arith)
                requires
                    page <= q / (rpp as int),
                    rpp > 0,
                    q >= 0,
            {
                assert((q / (rpp as int)) * (rpp as int) <= q);
                assert(page * rpp <= (q / (rpp as int)) * (rpp as int));
            }
        }
        let start = page * rpp;
        let end = if rpp < n - start { start + rpp } else { n };
        let mut r: Vec<usize> = Vec::new();
        let mut k: usize = start;
        while k < end
            invariant
                start <= k <= end <= n,
                n == shown@.len(),
                r@ == shown@.subrange(start as int, k as int),
            decreases end - k,
        {
            r.push(shown[k]);
            proof {
                assert(shown@.subrange(start as int, k + 1) =~= shown@.subrange(start as int, k as int).push(shown@[k as int]));
            }
            k = k + 1;
        }
        r
    }

    /// Go to the first page (when not on it); stops following.
    pub fn first_page(&mut self)
        ensures
            final(self).state() == if old(self).state().current_page > 0 {
                LoggerState { current_page: 0, auto_scroll: false, ..old(self).state() }
            } else {
                old(self).state()
            },
    {
        if self.current_page > 0 {
            self.current_page = 0;
            self.auto_scroll = false;
        }
    }

    /// Go one page back (when not on the first); stops following.
    pub fn previous_page(&mut self)
        ensures
            final(self).state() == if old(self).state().current_page > 0 {
                LoggerState { current_page: (old(self).state().current_page - 1) as nat, auto_scroll: false, ..old(self).state() }
            } else {
                old(self).state()
            },
    {
        if self.current_page > 0 {
            self.current_page = self.current_page - 1;
            self.auto_scroll = false;
        }
    }

    /// Go one page on (when not on the last); stops following.
    pub fn next_page(&mut self)
        requires
            old(self).wf(),
        ensures
            final(self).wf(),
            ({
                let before = old(self).state();
                let last = page_total(old(self).shown().len(), before.rows_per_page) - 1;
                final(self).state() == if before.current_page < last {
                    LoggerState { current_page: before.current_page + 1, auto_scroll: false, ..before }
                } else {
                    before
                }
            }),
    {
        let pages = self.page_count();
        if self.current_page < pages - 1 {
            self.current_page = self.current_page + 1;
            self.auto_scroll = false;
        }
    }

    /// Go to the last page (when not on it); follows new readings again.
    pub fn last_page(&mut self)
        requires
            old(self).wf(),
        ensures
            final(self).wf(),
            ({
                let before = old(self).state();
                let last = (page_total(old(self).shown().len(), before.rows_per_page) - 1) as nat;
                final(self).state() == if before.current_page < last {
                    LoggerState { current_page: last, auto_scroll: true, ..before }
                } else {
                    before
                }
            }),
    {
        let pages = self.page_count();
        if self.current_page < pages - 1 {
            self.current_page = pages - 1;
            self.auto_scroll = true;
        }
    }

    /// Show `rows` rows a page.
    pub fn set_rows_per_page(&mut self, rows: usize)
        requires
            old(self).wf(),
            rows > 0,
        ensures
            final(self).wf(),
            final(self).state() == (LoggerState { rows_per_page: rows as nat, ..old(self).state() }),
    {
        self.rows_per_page = rows;
    }

    /// Pause or resume logging.
    pub fn toggle_logging(&mut self)
        ensures
            final(self).state() == (LoggerState { logging_enabled: !old(self).state().logging_enabled, ..old(self).state() }),
    {
        self.logging_enabled = !self.logging_enabled;
    }

    /// Follow new readings, or stop following them.
    pub fn set_auto_scroll(&mut self, on: bool)
        ensures
            final(self).state() == (LoggerState { auto_scroll: on, ..old(self).state() }),
    {
        self.auto_scroll = on;
    }

    /// Filter the readings by channel name.
    pub fn set_channel_filter(&mut self, filter: String)
        ensures
            final(self).state() == (LoggerState { filter: filter@, ..old(self).state() }),
    {
        self.channel_filter = filter;
    }

    /// The reading at a position.
    pub fn entry(&self, i: usize) -> (r: &LogEntry)
        requires
            i < self.state().entries.len(),
        ensures
            *r == self.state().entries[i as int],
    {
        &self.buffer[i]
    }

    /// The number of readings kept.
    pub fn len(&self) -> (r: usize)
        ensures
            r == self.state().entries.len(),
    {
        self.buffer.len()
    }

    /// The readings counted since the last clear, and those dropped.
    pub fn counts(&self) -> (r: (u64, u64))
        ensures
            r.0 == self.state().total_entries,
            r.1 == self.state().dropped_entries,
    {
        (self.total_entries, self.dropped_entries)
    }

    /// Whether new readings are logged, and whether the view follows them.
    pub fn modes(&self) -> (r: (bool, bool))
        ensures
            r.0 == self.state().logging_enabled,
            r.1 == self.state().auto_scroll,
    {
        (self.logging_enabled, self.auto_scroll)
    }

    /// The current page.
    pub fn current_page(&self) -> (r: usize)
        ensures
            r == self.state().current_page,
    {
        self.current_page
    }
}

} // verus!
