//! Run documents into columnar tables (Arrow IPC or Parquet files).
//!
//! Events are buffered and written as one batch per flush: a column of
//! sequence numbers, one of times, and one per data field of the schema
//! that the latest descriptor declared, with a gap where an event has no
//! value for the field.

use vstd::prelude::*;
use crate::graph::nodes::Real;
use crate::storage::documents::{pairs_view, DataKey, Document};
use crate::storage::recording::copy_metadata;
use crate::text::{decimal, push_decimal, push_str, string_of};

verus! {

/// The file format of the tables.
#[derive(Debug, Clone, Copy, PartialEq, Eq, Structural)]
pub enum TableFormat {
    /// Arrow IPC: each flush appends a batch to the run's file.
    ArrowIpc,
    /// Parquet: each flush writes the run's file anew.
    Parquet,
}

/// The type of a data column.
#[derive(Debug, Clone, Copy, PartialEq, Eq, Structural)]
pub enum ColumnType {
    Float64,
    Utf8,
}

/// A data field of the schema (after the sequence-number and time columns).
pub struct Field {
    pub name: String,
    pub column_type: ColumnType,
}

/// An event waiting to be written.
pub struct BufferedEvent {
    pub seq_num: u64,
    pub time_ns: u64,
    pub data: Vec<(String, Real)>,
}

/// The open run of a table writer.
pub struct TableRun {
    pub run_uid: String,
    pub file_name: String,
    pub metadata: Vec<(String, String)>,
    pub schema: Option<Vec<Field>>,
    pub buffer: Vec<BufferedEvent>,
    /// Every data key a descriptor of the run declared.
    pub data_keys: Vec<String>,
}

/// A batch to write.
pub struct FlushPlan {
    pub file_name: String,
    /// Append to the file (Arrow IPC) or write it anew (Parquet).
    pub append: bool,
    pub fields: Vec<Field>,
    pub seq_nums: Vec<u64>,
    pub times: Vec<u64>,
    /// One column per schema field whose key was declared: its name and a
    /// value (or a gap) per event.
    pub columns: Vec<(String, Vec<Option<Real>>)>,
    /// The run ends once the batch is written.
    pub closes_run: bool,
}

/// Why a document is refused.
#[derive(Debug, Clone, Copy, PartialEq, Eq, Structural)]
pub enum TableError {
    /// A descriptor names another run than the open one.
    RunMismatch,
    /// Events are to be written before any descriptor gave a schema.
    NoSchema,
}

impl TableError {
    pub open spec fn text(self) -> Seq<char> {
        match self {
            TableError::RunMismatch => "Descriptor run_uid mismatch"@,
            TableError::NoSchema => "No schema defined"@,
        }
    }

    pub fn message(&self) -> (r: String)
        ensures
            r@ == self.text(),
    {
        match self {
            TableError::RunMismatch => string_of("Descriptor run_uid mismatch"),
            TableError::NoSchema => string_of("No schema defined"),
        }
    }
}

/// The extension of a format's files.
pub open spec fn extension_of(f: TableFormat) -> Seq<char> {
    match f {
        TableFormat::ArrowIpc => ".arrow"@,
        TableFormat::Parquet => ".parquet"@,
    }
}

/// Keys declared `string` get text columns; every other type, numbers.
pub open spec fn column_type_of(dtype: Seq<char>) -> ColumnType {
    if dtype == "string"@ {
        ColumnType::Utf8
    } else {
        ColumnType::Float64
    }
}

/// Schema fields as plain values.
pub open spec fn fields_view(fields: Seq<Field>) -> Seq<(Seq<char>, ColumnType)> {
    fields.map_values(|f: Field| (f.name@, f.column_type))
}

/// The data fields a descriptor's keys give.
pub open spec fn schema_of(keys: Seq<(String, DataKey)>) -> Seq<(Seq<char>, ColumnType)> {
    keys.map_values(|e: (String, DataKey)| (e.0@, column_type_of(e.1.dtype@)))
}

/// Texts as plain values.
pub open spec fn names_view(v: Seq<String>) -> Seq<Seq<char>> {
    v.map_values(|s: String| s@)
}

/// An event's value for a key; a later entry for the same key wins.
pub open spec fn value_of(data: Seq<(String, Real)>, key: Seq<char>) -> Option<Real>
    decreases data.len(),
{
    if data.len() == 0 {
        None
    } else if data.last().0@ == key {
        Some(data.last().1)
    } else {
        value_of(data.drop_last(), key)
    }
}

/// The column of a key over the buffered events.
pub open spec fn column_of(buffer: Seq<BufferedEvent>, key: Seq<char>) -> Seq<Option<Real>> {
    buffer.map_values(|e: BufferedEvent| value_of(e.data@, key))
}

/// The columns of a batch: one per schema field whose key was declared, in
/// schema order.
pub open spec fn columns_of(fields: Seq<(Seq<char>, ColumnType)>, declared: Seq<Seq<char>>, buffer: Seq<BufferedEvent>) -> Seq<(Seq<char>, Seq<Option<Real>>)>
    decreases fields.len(),
{
    if fields.len() == 0 {
        Seq::empty()
    } else {
        let earlier = columns_of(fields.drop_last(), declared, buffer);
        let name = fields.last().0;
        if declared.contains(name) {
            earlier.push((name, column_of(buffer, name)))
        } else {
            earlier
        }
    }
}

/// Columns as plain values.
pub open spec fn columns_view(cols: Seq<(String, Vec<Option<Real>>)>) -> Seq<(Seq<char>, Seq<Option<Real>>)> {
    cols.map_values(|c: (String, Vec<Option<Real>>)| (c.0@, c.1@))
}

/// `p` is the batch of the run's buffer.
pub open spec fn is_batch_of(p: FlushPlan, run: TableRun, format: TableFormat, closes_run: bool) -> bool {
    &&& run.schema is Some
    &&& p.file_name == run.file_name
    &&& p.append == (format == TableFormat::ArrowIpc)
    &&& fields_view(p.fields@) == fields_view(run.schema->Some_0@)
    &&& p.seq_nums@ == run.buffer@.map_values(|e: BufferedEvent| e.seq_num)
    &&& p.times@ == run.buffer@.map_values(|e: BufferedEvent| e.time_ns)
    &&& columns_view(p.columns@) == columns_of(fields_view(run.schema->Some_0@), names_view(run.data_keys@), run.buffer@)
    &&& p.closes_run == closes_run
}

/// What flushing the run's buffer takes: nothing when it is empty, a batch
/// when there is a schema, else a refusal.
pub open spec fn flush_outcome(run: TableRun, format: TableFormat, closes_run: bool, r: Result<Option<FlushPlan>, TableError>) -> bool {
    if run.buffer@.len() == 0 {
        r == Ok::<Option<FlushPlan>, TableError>(None)
    } else if run.schema is None {
        r == Err::<Option<FlushPlan>, TableError>(TableError::NoSchema)
    } else {
        r matches Ok(Some(p)) && is_batch_of(p, run, format, closes_run)
    }
}

/// Every column of a batch has one entry per buffered event.
pub proof fn lemma_columns_aligned(fields: Seq<(Seq<char>, ColumnType)>, declared: Seq<Seq<char>>, buffer: Seq<BufferedEvent>)
    ensures
        forall|j: int|
            0 <= j < columns_of(fields, declared, buffer).len() ==> (#[trigger] columns_of(fields, declared, buffer)[j]).1.len()
                == buffer.len(),
        columns_of(fields, declared, buffer).len() <= fields.len(),
    decreases fields.len(),
{
    if fields.len() > 0 {
        lemma_columns_aligned(fields.drop_last(), declared, buffer);
        let earlier = columns_of(fields.drop_last(), declared, buffer);
        let all = columns_of(fields, declared, buffer);
        assert forall|j: int| 0 <= j < all.len() implies (#[trigger] all[j]).1.len() == buffer.len() by {
            if j < earlier.len() {
                assert(all[j] == earlier[j]);
            }
        }
    }
}

/// Writes the documents of one run at a time into table files.
pub struct TableWriter {
    format: TableFormat,
    flush_threshold: usize,
    run: Option<TableRun>,
}

/// Copies of the schema fields.
fn copy_fields(fields: &Vec<Field>) -> (r: Vec<Field>)
    ensures
        fields_view(r@) == fields_view(fields@),
{
    let mut r: Vec<Field> = Vec::new();
    let mut i: usize = 0;
    while i < fields.len()
        invariant
            i <= fields.len(),
            fields_view(r@) =~= fields_view(fields@.take(i as int)),
        decreases fields.len() - i,
    {
        let ghost before = r@;
        r.push(Field { name: fields[i].name.clone(), column_type: fields[i].column_type });
        proof {
            assert(fields@.take(i + 1) =~= fields@.take(i as int).push(fields@[i as int]));
            assert(fields_view(r@) =~= fields_view(before).push((fields@[i as int].name@, fields@[i as int].column_type)));
            assert(fields_view(fields@.take(i + 1)) =~= fields_view(fields@.take(i as int)).push(
                (fields@[i as int].name@, fields@[i as int].column_type),
            ));
        }
        i = i + 1;
    }
    proof {
        assert(fields@.take(fields.len() as int) =~= fields@);
    }
    r
}

/// An event's value for a key.
fn find_value(data: &Vec<(String, Real)>, key: &String) -> (r: Option<Real>)
    ensures
        r == value_of(data@, key@),
{
    let mut i: usize = data.len();
    proof {
        assert(data@.take(i as int) =~= data@);
    }
    while i > 0
        invariant
            i <= data.len(),
            value_of(data@.take(i as int), key@) == value_of(data@, key@),
        decreases i,
    {
        let ghost t = data@.take(i as int);
        proof {
            assert(t.drop_last() =~= data@.take(i - 1));
            assert(t.last() == data@[i - 1]);
        }
        if data[i - 1].0 == *key {
            return Some(data[i - 1].1);
        }
        i = i - 1;
    }
    None
}

/// Whether a key is among the declared ones.
fn declared(keys: &Vec<String>, name: &String) -> (r: bool)
    ensures
        r == names_view(keys@).contains(name@),
{
    let mut i: usize = 0;
    while i < keys.len()
        invariant
            i <= keys.len(),
            forall|j: int| 0 <= j < i ==> keys@[j]@ != name@,
        decreases keys.len() - i,
    {
        if keys[i] == *name {
            proof {
                assert(names_view(keys@)[i as int] == name@);
            }
            return true;
        }
        i = i + 1;
    }
    proof {
        if names_view(keys@).contains(name@) {
            let j = choose|j: int| 0 <= j < names_view(keys@).len() && names_view(keys@)[j] == name@;
            assert(keys@[j]@ == name@);
        }
    }
    false
}

/// The batch of a run's buffer.
fn batch_of(run: &TableRun, schema: &Vec<Field>, format: TableFormat, closes_run: bool) -> (r: FlushPlan)
    requires
        run.schema == Some(*schema),
    ensures
        is_batch_of(r, *run, format, closes_run),
{
    let n = run.buffer.len();
    let mut seq_nums: Vec<u64> = Vec::new();
    let mut times: Vec<u64> = Vec::new();
    let mut i: usize = 0;
    while i < n
        invariant
            n == run.buffer@.len(),
            i <= n,
            seq_nums@ =~= run.buffer@.take(i as int).map_values(|e: BufferedEvent| e.seq_num),
            times@ =~= run.buffer@.take(i as int).map_values(|e: BufferedEvent| e.time_ns),
        decreases n - i,
    {
        seq_nums.push(run.buffer[i].seq_num);
        times.push(run.buffer[i].time_ns);
        proof {
            assert(run.buffer@.take(i + 1) =~= run.buffer@.take(i as int).push(run.buffer@[i as int]));
        }
        i = i + 1;
    }
    proof {
        assert(run.buffer@.take(n as int) =~= run.buffer@);
    }
    let mut columns: Vec<(String, Vec<Option<Real>>)> = Vec::new();
    let mut f: usize = 0;
    while f < schema.len()
        invariant
            f <= schema.len(),
            n == run.buffer@.len(),
            columns_view(columns@) == columns_of(fields_view(schema@.take(f as int)), names_view(run.data_keys@), run.buffer@),
        decreases schema.len() - f,
    {
        let name = &schema[f].name;
        proof {
            assert(fields_view(schema@.take(f + 1)).drop_last() =~= fields_view(schema@.take(f as int)));
            assert(fields_view(schema@.take(f + 1)).last() == (name@, schema@[f as int].column_type));
        }
        if declared(&run.data_keys, name) {
            let mut values: Vec<Option<Real>> = Vec::new();
            let mut k: usize = 0;
            while k < n
                invariant
                    k <= n,
                    n == run.buffer@.len(),
                    values@ =~= column_of(run.buffer@.take(k as int), name@),
                decreases n - k,
            {
                values.push(find_value(&run.buffer[k].data, name));
                proof {
                    assert(run.buffer@.take(k + 1) =~= run.buffer@.take(k as int).push(run.buffer@[k as int]));
                }
                k = k + 1;
            }
            proof {
                assert(run.buffer@.take(n as int) =~= run.buffer@);
            }
            let ghost before = columns@;
            columns.push((name.clone(), values));
            proof {
                assert(columns_view(columns@) =~= columns_view(before).push((name@, column_of(run.buffer@, name@))));
            }
        }
        f = f + 1;
    }
    proof {
        assert(schema@.take(schema.len() as int) =~= schema@);
    }
    FlushPlan {
        file_name: run.file_name.clone(),
        append: match format {
            TableFormat::ArrowIpc => true,
            TableFormat::Parquet => false,
        },
        fields: copy_fields(schema),
        seq_nums,
        times,
        columns,
        closes_run,
    }
}

/// What flushing a run's buffer takes.
fn plan_flush(run: &TableRun, format: TableFormat, closes_run: bool) -> (r: Result<Option<FlushPlan>, TableError>)
    ensures
        flush_outcome(*run, format, closes_run, r),
{
    if run.buffer.len() == 0 {
        return Ok(None);
    }
    match &run.schema {
        None => Err(TableError::NoSchema),
        Some(schema) => Ok(Some(batch_of(run, schema, format, closes_run))),
    }
}

impl TableWriter {
    pub closed spec fn table_format(&self) -> TableFormat {
        self.format
    }

    /// Events buffered before a flush.
    pub closed spec fn threshold(&self) -> usize {
        self.flush_threshold
    }

    pub closed spec fn active_run(&self) -> Option<TableRun> {
        self.run
    }

    /// A writer of the given format with no open run, flushing every 1000 events.
    pub fn new(format: TableFormat) -> (r: Self)
        ensures
            r.table_format() == format,
            r.threshold() == 1000,
            r.active_run() is None,
    {
        TableWriter { format, flush_threshold: 1000, run: None }
    }

    /// Flush after this many buffered events.
    pub fn with_flush_threshold(self, threshold: usize) -> (r: Self)
        ensures
            r.table_format() == self.table_format(),
            r.threshold() == threshold,
            r.active_run() == self.active_run(),
    {
        TableWriter { flush_threshold: threshold, ..self }
    }

    /// Take in a document; gives the batch to write when a flush is due.
    /// A start opens its run (an open run is dropped); a descriptor of the
    /// open run sets the schema; an event is buffered, and flushed when the
    /// buffer reaches the threshold; a stop of the open run flushes it and
    /// ends it (at once when nothing is buffered).
    pub fn write(&mut self, doc: Document) -> (r: Result<Option<FlushPlan>, TableError>)
        ensures
            final(self).table_format() == old(self).table_format(),
            final(self).threshold() == old(self).threshold(),
            match doc {
                Document::Start(s) => {
                    &&& r == Ok::<Option<FlushPlan>, TableError>(None)
                    &&& final(self).active_run() is Some
                    &&& {
                        let run = final(self).active_run()->Some_0;
                        &&& run.run_uid == s.uid
                        &&& run.file_name@ == s.uid@ + "_"@ + decimal(s.time_ns as nat) + extension_of(old(self).table_format())
                        &&& pairs_view(run.metadata@) == pairs_view(s.metadata@) + seq![
                            ("plan_type"@, s.plan_type@),
                            ("plan_name"@, s.plan_name@),
                            ("run_uid"@, s.uid@),
                        ]
                        &&& run.schema is None
                        &&& run.buffer@.len() == 0
                        &&& run.data_keys@.len() == 0
                    }
                },
                Document::Descriptor(d) => match old(self).active_run() {
                    None => r == Ok::<Option<FlushPlan>, TableError>(None) && final(self).active_run() is None,
                    Some(run) => if run.run_uid@ != d.run_uid@ {
                        r == Err::<Option<FlushPlan>, TableError>(TableError::RunMismatch) && final(self).active_run()
                            == old(self).active_run()
                    } else {
                        &&& r == Ok::<Option<FlushPlan>, TableError>(None)
                        &&& final(self).active_run() is Some
                        &&& {
                            let after = final(self).active_run()->Some_0;
                            &&& after.run_uid == run.run_uid
                            &&& after.file_name == run.file_name
                            &&& after.metadata == run.metadata
                            &&& after.buffer == run.buffer
                            &&& after.schema is Some
                            &&& fields_view(after.schema->Some_0@) == schema_of(d.data_keys@)
                            &&& names_view(after.data_keys@) == names_view(run.data_keys@) + d.data_keys@.map_values(
                                |e: (String, DataKey)| e.0@,
                            )
                        }
                    },
                },
                Document::Event(e) => match old(self).active_run() {
                    None => r == Ok::<Option<FlushPlan>, TableError>(None) && final(self).active_run() is None,
                    Some(run) => {
                        &&& final(self).active_run() is Some
                        &&& {
                            let after = final(self).active_run()->Some_0;
                            &&& after.buffer@.len() == run.buffer@.len() + 1
                            &&& after.buffer@.drop_last() == run.buffer@
                            &&& after.buffer@.last().seq_num == e.seq_num
                            &&& after.buffer@.last().time_ns == e.time_ns
                            &&& after.buffer@.last().data == e.data
                            &&& after.run_uid == run.run_uid
                            &&& after.file_name == run.file_name
                            &&& after.metadata == run.metadata
                            &&& after.schema == run.schema
                            &&& after.data_keys == run.data_keys
                            &&& if after.buffer@.len() >= old(self).threshold() {
                                flush_outcome(after, old(self).table_format(), false, r)
                            } else {
                                r == Ok::<Option<FlushPlan>, TableError>(None)
                            }
                        }
                    },
                },
                Document::Stop(s) => match old(self).active_run() {
                    Some(run) => if run.run_uid@ == s.run_uid@ {
                        &&& flush_outcome(run, old(self).table_format(), true, r)
                        &&& run.buffer@.len() == 0 ==> final(self).active_run() is None
                        &&& run.buffer@.len() > 0 ==> final(self).active_run() == old(self).active_run()
                    } else {
                        r == Ok::<Option<FlushPlan>, TableError>(None) && final(self).active_run() == old(self).active_run()
                    },
                    None => r == Ok::<Option<FlushPlan>, TableError>(None) && final(self).active_run() is None,
                },
                Document::Manifest => r == Ok::<Option<FlushPlan>, TableError>(None) && final(self).active_run()
                    == old(self).active_run(),
            },
    {
        match doc {
            Document::Start(s) => {
                let mut file_name = s.uid.clone();
                push_str(&mut file_name, "_");
                push_decimal(&mut file_name, s.time_ns);
                match self.format {
                    TableFormat::ArrowIpc => push_str(&mut file_name, ".arrow"),
                    TableFormat::Parquet => push_str(&mut file_name, ".parquet"),
                }
                let mut metadata = copy_metadata(&s.metadata);
                proof {
                    assert(file_name@ =~= s.uid@ + "_"@ + decimal(s.time_ns as nat) + extension_of(self.format));
                }
                let ghost m0 = metadata@;
                metadata.push((string_of("plan_type"), s.plan_type.clone()));
                metadata.push((string_of("plan_name"), s.plan_name.clone()));
                metadata.push((string_of("run_uid"), s.uid.clone()));
                proof {
                    assert(pairs_view(metadata@) =~= pairs_view(m0) + seq![
                        ("plan_type"@, s.plan_type@),
                        ("plan_name"@, s.plan_name@),
                        ("run_uid"@, s.uid@),
                    ]);
                }
                self.run = Some(
                    TableRun { run_uid: s.uid, file_name, metadata, schema: None, buffer: Vec::new(), data_keys: Vec::new() },
                );
                Ok(None)
            },
            Document::Descriptor(d) => {
                let cur = self.run.take();
                match cur {
                    None => Ok(None),
                    Some(mut run) => {
                        if !(run.run_uid == d.run_uid) {
                            self.run = Some(run);
                            return Err(TableError::RunMismatch);
                        }
                        let string_type = string_of("string");
                        let mut fields: Vec<Field> = Vec::new();
                        let ghost keys0 = run.data_keys@;
                        let ghost run0 = run;
                        let mut i: usize = 0;
                        while i < d.data_keys.len()
                            invariant
                                run.run_uid == run0.run_uid,
                                run.file_name == run0.file_name,
                                run.metadata == run0.metadata,
                                run.buffer == run0.buffer,
                                i <= d.data_keys.len(),
                                string_type@ == "string"@,
                                fields_view(fields@) =~= schema_of(d.data_keys@.take(i as int)),
                                names_view(run.data_keys@) =~= names_view(keys0) + d.data_keys@.take(i as int).map_values(
                                    |e: (String, DataKey)| e.0@,
                                ),
                            decreases d.data_keys.len() - i,
                        {
                            let (key, meta) = &d.data_keys[i];
                            let column_type = if meta.dtype == string_type {
                                ColumnType::Utf8
                            } else {
                                ColumnType::Float64
                            };
                            let ghost f0 = fields@;
                            let ghost k0 = run.data_keys@;
                            fields.push(Field { name: key.clone(), column_type });
                            run.data_keys.push(key.clone());
                            proof {
                                let t = d.data_keys@.take(i + 1);
                                assert(t =~= d.data_keys@.take(i as int).push(d.data_keys@[i as int]));
                                assert(fields_view(fields@) =~= fields_view(f0).push((key@, column_type)));
                                assert(schema_of(t) =~= schema_of(d.data_keys@.take(i as int)).push(
                                    (key@, column_type_of(meta.dtype@)),
                                ));
                                assert(names_view(run.data_keys@) =~= names_view(k0).push(key@));
                                assert(t.map_values(|e: (String, DataKey)| e.0@) =~= d.data_keys@.take(i as int).map_values(
                                    |e: (String, DataKey)| e.0@,
                                ).push(key@));
                            }
                            i = i + 1;
                        }
                        proof {
                            assert(d.data_keys@.take(d.data_keys.len() as int) =~= d.data_keys@);
                        }
                        run.schema = Some(fields);
                        self.run = Some(run);
                        Ok(None)
                    },
                }
            },
            Document::Event(e) => {
                let cur = self.run.take();
                match cur {
                    None => Ok(None),
                    Some(mut run) => {
                        let ghost before = run.buffer@;
                        run.buffer.push(BufferedEvent { seq_num: e.seq_num, time_ns: e.time_ns, data: e.data });
                        proof {
                            assert(run.buffer@.drop_last() =~= before);
                        }
                        let due = run.buffer.len() >= self.flush_threshold;
                        let r = if due {
                            plan_flush(&run, self.format, false)
                        } else {
                            Ok(None)
                        };
                        self.run = Some(run);
                        r
                    },
                }
            },
            Document::Stop(s) => {
                let cur = self.run.take();
                match cur {
                    None => Ok(None),
                    Some(run) => {
                        if !(run.run_uid == s.run_uid) {
                            self.run = Some(run);
                            return Ok(None);
                        }
                        let r = plan_flush(&run, self.format, true);
                        if run.buffer.len() > 0 {
                            self.run = Some(run);
                        }
                        r
                    },
                }
            },
            Document::Manifest => Ok(None),
        }
    }

    /// A planned batch was written: the buffer is emptied, and the run
    /// ends when the batch was its last.
    pub fn flush_done(&mut self, closes_run: bool)
        ensures
            final(self).table_format() == old(self).table_format(),
            final(self).threshold() == old(self).threshold(),
            closes_run ==> final(self).active_run() is None,
            !closes_run ==> match old(self).active_run() {
                None => final(self).active_run() is None,
                Some(run) => final(self).active_run() is Some && {
                    let after = final(self).active_run()->Some_0;
                    &&& after.buffer@.len() == 0
                    &&& after.run_uid == run.run_uid
                    &&& after.file_name == run.file_name
                    &&& after.metadata == run.metadata
                    &&& after.schema == run.schema
                    &&& after.data_keys == run.data_keys
                },
            },
    {
        if closes_run {
            self.run = None;
            return;
        }
        let cur = self.run.take();
        self.run = match cur {
            Some(mut run) => {
                run.buffer.clear();
                Some(run)
            },
            None => None,
        };
    }
}

} // verus!
