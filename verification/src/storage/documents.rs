//! Run documents and what storing them in a run file takes.
//!
//! A run's documents arrive in order: a start document opens the run's
//! file, descriptors declare data streams and their keys, events carry
//! readings, and a stop document closes the run. For each document the
//! writer plans the file operations; once they are carried out, the
//! document is committed to the writer's state.

use vstd::prelude::*;
use crate::graph::nodes::Real;
use crate::storage::recording::copy_metadata;
use crate::text::{decimal, push_decimal, push_str, string_of};

verus! {

/// How the values of one data key are described.
pub struct DataKey {
    pub source: String,
    pub dtype: String,
    pub shape: Vec<u64>,
}

/// Opens a run.
pub struct StartDoc {
    pub uid: String,
    pub time_ns: u64,
    pub plan_type: String,
    pub plan_name: String,
    pub plan_args: Vec<(String, String)>,
    pub metadata: Vec<(String, String)>,
}

/// Declares a data stream of a run and its keys.
pub struct DescriptorDoc {
    pub run_uid: String,
    pub uid: String,
    pub name: String,
    pub data_keys: Vec<(String, DataKey)>,
}

/// Readings of one moment: scalar values and raw arrays, by key.
pub struct EventDoc {
    pub descriptor_uid: String,
    pub seq_num: u64,
    pub time_ns: u64,
    pub data: Vec<(String, Real)>,
    pub arrays: Vec<(String, Vec<u8>)>,
}

/// Closes a run.
pub struct StopDoc {
    pub run_uid: String,
    pub exit_status: String,
}

/// A document of a run.
pub enum Document {
    Start(StartDoc),
    Descriptor(DescriptorDoc),
    Event(EventDoc),
    Stop(StopDoc),
    Manifest,
}

/// The element type of a dataset.
#[derive(Clone, Copy, PartialEq, Eq, Debug, Structural)]
pub enum ElementType {
    U16,
    F64,
}

/// An extendable dataset to create, with its text attributes.
pub struct DatasetPlan {
    pub key: String,
    pub element: ElementType,
    pub source: String,
    pub dtype: String,
    pub shape: String,
}

/// A file operation.
pub enum StoreAction {
    /// Create the run's file and its `start` group with these text attributes.
    CreateRunFile { file_name: String, attributes: Vec<(String, String)> },
    /// Open or create the stream's group and create a dataset per key.
    CreateDatasets { stream: String, datasets: Vec<DatasetPlan> },
    /// Append a value to the key's dataset, if the event's group has one.
    AppendValue { key: String, value: Real },
    /// Append 16-bit samples to the key's dataset, if the event's group has one.
    AppendSamples { key: String, samples: Vec<u16> },
    /// Append the event's time, in seconds, to the `timestamps` dataset
    /// (created when missing).
    AppendTimestamp { time_ns: u64 },
    /// Create the `stop` group with the exit status.
    WriteStop { exit_status: String },
}

/// Why a document is refused.
#[derive(Clone, Copy, PartialEq, Eq, Debug, Structural)]
pub enum DocumentError {
    /// A descriptor names another run than the open one.
    RunMismatch,
}

impl DocumentError {
    pub fn message(&self) -> (r: String)
        ensures
            r@ == "Descriptor run_uid mismatch"@,
    {
        string_of("Descriptor run_uid mismatch")
    }
}

/// A dataset plan as plain values.
pub struct DatasetView {
    pub key: Seq<char>,
    pub element: ElementType,
    pub source: Seq<char>,
    pub dtype: Seq<char>,
    pub shape: Seq<char>,
}

/// A file operation as plain values.
pub enum ActionView {
    CreateRunFile(Seq<char>, Seq<(Seq<char>, Seq<char>)>),
    CreateDatasets(Seq<char>, Seq<DatasetView>),
    AppendValue(Seq<char>, Real),
    AppendSamples(Seq<char>, Seq<u16>),
    AppendTimestamp(u64),
    WriteStop(Seq<char>),
}

/// Text pairs as plain values.
pub open spec fn pairs_view(v: Seq<(String, String)>) -> Seq<(Seq<char>, Seq<char>)> {
    v.map_values(|p: (String, String)| (p.0@, p.1@))
}

impl View for DatasetPlan {
    type V = DatasetView;

    open spec fn view(&self) -> DatasetView {
        DatasetView { key: self.key@, element: self.element, source: self.source@, dtype: self.dtype@, shape: self.shape@ }
    }
}

impl View for StoreAction {
    type V = ActionView;

    open spec fn view(&self) -> ActionView {
        match self {
            StoreAction::CreateRunFile { file_name, attributes } => ActionView::CreateRunFile(
                file_name@,
                pairs_view(attributes@),
            ),
            StoreAction::CreateDatasets { stream, datasets } => ActionView::CreateDatasets(
                stream@,
                datasets@.map_values(|d: DatasetPlan| d@),
            ),
            StoreAction::AppendValue { key, value } => ActionView::AppendValue(key@, *value),
            StoreAction::AppendSamples { key, samples } => ActionView::AppendSamples(key@, samples@),
            StoreAction::AppendTimestamp { time_ns } => ActionView::AppendTimestamp(*time_ns),
            StoreAction::WriteStop { exit_status } => ActionView::WriteStop(exit_status@),
        }
    }
}

/// The file of a run: `{uid}_{time_ns}.h5`.
pub open spec fn run_file_name(uid: Seq<char>, time_ns: u64) -> Seq<char> {
    uid + "_"@ + decimal(time_ns as nat) + ".h5"@
}

/// The attributes of a run's `start` group: its id, plan type and plan
/// name, then the plan arguments and the metadata.
pub open spec fn start_attributes(s: StartDoc) -> Seq<(Seq<char>, Seq<char>)> {
    seq![("uid"@, s.uid@), ("plan_type"@, s.plan_type@), ("plan_name"@, s.plan_name@)] + pairs_view(s.plan_args@)
        + pairs_view(s.metadata@)
}

/// Numbers separated by `, `.
pub open spec fn list_body(xs: Seq<u64>) -> Seq<char>
    decreases xs.len(),
{
    if xs.len() == 0 {
        Seq::empty()
    } else if xs.len() == 1 {
        decimal(xs[0] as nat)
    } else {
        list_body(xs.drop_last()) + ", "@ + decimal(xs.last() as nat)
    }
}

/// A shape as the debug rendering of a list shows it: `[10, 10]`.
pub open spec fn shape_text(xs: Seq<u64>) -> Seq<char> {
    "["@ + list_body(xs) + "]"@
}

/// Keys of type `uint16` get 16-bit datasets; every other type gets doubles.
pub open spec fn element_of(dtype: Seq<char>) -> ElementType {
    if dtype == "uint16"@ {
        ElementType::U16
    } else {
        ElementType::F64
    }
}

/// The dataset a data key gets.
pub open spec fn dataset_view(entry: (String, DataKey)) -> DatasetView {
    DatasetView {
        key: entry.0@,
        element: element_of(entry.1.dtype@),
        source: entry.1.source@,
        dtype: entry.1.dtype@,
        shape: shape_text(entry.1.shape@),
    }
}

/// The description of key `k`; a later entry for the same key wins.
pub open spec fn key_lookup(keys: Seq<(String, DataKey)>, k: Seq<char>) -> Option<DataKey>
    decreases keys.len(),
{
    if keys.len() == 0 {
        None
    } else if keys.last().0@ == k {
        Some(keys.last().1)
    } else {
        key_lookup(keys.drop_last(), k)
    }
}

/// The keys a descriptor declared; a later descriptor with the same id wins.
pub open spec fn descriptor_keys(descs: Seq<(String, Vec<(String, DataKey)>)>, uid: Seq<char>) -> Option<Seq<(String, DataKey)>>
    decreases descs.len(),
{
    if descs.len() == 0 {
        None
    } else if descs.last().0@ == uid {
        Some(descs.last().1@)
    } else {
        descriptor_keys(descs.drop_last(), uid)
    }
}

/// Little-endian 16-bit samples of a byte buffer of even length.
pub open spec fn le_samples(bytes: Seq<u8>) -> Seq<u16> {
    Seq::new(bytes.len() / 2, |i: int| (bytes[2 * i] + 256 * bytes[2 * i + 1]) as u16)
}

/// The values of an event whose keys the descriptor declared.
pub open spec fn value_appends(keys: Seq<(String, DataKey)>, data: Seq<(String, Real)>) -> Seq<ActionView>
    decreases data.len(),
{
    if data.len() == 0 {
        Seq::empty()
    } else {
        let earlier = value_appends(keys, data.drop_last());
        if key_lookup(keys, data.last().0@) is Some {
            earlier.push(ActionView::AppendValue(data.last().0@, data.last().1))
        } else {
            earlier
        }
    }
}

/// An array is stored when its key was declared with type `uint16` and it
/// holds a whole number of samples.
pub open spec fn stores_array(keys: Seq<(String, DataKey)>, k: Seq<char>, bytes: Seq<u8>) -> bool {
    &&& key_lookup(keys, k) is Some
    &&& key_lookup(keys, k)->Some_0.dtype@ == "uint16"@
    &&& bytes.len() % 2 == 0
}

/// The arrays of an event that are stored, as samples.
pub open spec fn sample_appends(keys: Seq<(String, DataKey)>, arrays: Seq<(String, Vec<u8>)>) -> Seq<ActionView>
    decreases arrays.len(),
{
    if arrays.len() == 0 {
        Seq::empty()
    } else {
        let earlier = sample_appends(keys, arrays.drop_last());
        let (k, bytes) = arrays.last();
        if stores_array(keys, k@, bytes@) {
            earlier.push(ActionView::AppendSamples(k@, le_samples(bytes@)))
        } else {
            earlier
        }
    }
}

/// The open run: its id, its file and the descriptors declared so far.
pub struct ActiveRun {
    pub run_uid: String,
    pub file_name: String,
    pub descriptors: Vec<(String, Vec<(String, DataKey)>)>,
}

/// The file operations a document takes, given the open run: a start opens
/// a file; a descriptor of the open run creates its datasets, one of
/// another run is refused; an event of a declared descriptor appends its
/// declared values and arrays and its time; a stop of the open run closes
/// it. Anything else takes nothing.
pub open spec fn planned(run: Option<ActiveRun>, doc: Document) -> Result<Seq<ActionView>, DocumentError> {
    match doc {
        Document::Start(s) => Ok(seq![ActionView::CreateRunFile(run_file_name(s.uid@, s.time_ns), start_attributes(s))]),
        Document::Descriptor(d) => match run {
            None => Ok(Seq::empty()),
            Some(r) => if r.run_uid@ != d.run_uid@ {
                Err(DocumentError::RunMismatch)
            } else {
                Ok(seq![ActionView::CreateDatasets(d.name@, d.data_keys@.map_values(|e: (String, DataKey)| dataset_view(e)))])
            },
        },
        Document::Event(e) => match run {
            None => Ok(Seq::empty()),
            Some(r) => match descriptor_keys(r.descriptors@, e.descriptor_uid@) {
                None => Ok(Seq::empty()),
                Some(keys) => Ok(
                    value_appends(keys, e.data@) + sample_appends(keys, e.arrays@) + seq![ActionView::AppendTimestamp(e.time_ns)],
                ),
            },
        },
        Document::Stop(s) => match run {
            Some(r) => if r.run_uid@ == s.run_uid@ {
                Ok(seq![ActionView::WriteStop(s.exit_status@)])
            } else {
                Ok(Seq::empty())
            },
            None => Ok(Seq::empty()),
        },
        Document::Manifest => Ok(Seq::empty()),
    }
}

/// The open run after a document's file operations are done: a start opens
/// its run, a descriptor of the open run is recorded, a stop of the open
/// run closes it; nothing else changes it.
pub open spec fn commits(before: Option<ActiveRun>, doc: Document, after: Option<ActiveRun>) -> bool {
    match doc {
        Document::Start(s) => {
            &&& after is Some
            &&& after->Some_0.run_uid == s.uid
            &&& after->Some_0.file_name@ == run_file_name(s.uid@, s.time_ns)
            &&& after->Some_0.descriptors@.len() == 0
        },
        Document::Descriptor(d) => match before {
            Some(r) => if r.run_uid@ == d.run_uid@ {
                &&& after is Some
                &&& after->Some_0.run_uid == r.run_uid
                &&& after->Some_0.file_name == r.file_name
                &&& after->Some_0.descriptors@ == r.descriptors@.push((d.uid, d.data_keys))
            } else {
                after == before
            },
            None => after == before,
        },
        Document::Stop(s) => match before {
            Some(r) => if r.run_uid@ == s.run_uid@ {
                after is None
            } else {
                after == before
            },
            None => after == before,
        },
        _ => after == before,
    }
}

/// The actions as plain values.
pub open spec fn actions_view(v: Seq<StoreAction>) -> Seq<ActionView> {
    v.map_values(|a: StoreAction| a@)
}

proof fn lemma_actions_push(v: Seq<StoreAction>, a: StoreAction)
    ensures
        actions_view(v.push(a)) == actions_view(v).push(a@),
{
    assert(actions_view(v.push(a)) =~= actions_view(v).push(a@));
}

/// The file name of a run.
fn file_name_for(uid: &String, time_ns: u64) -> (r: String)
    ensures
        r@ == run_file_name(uid@, time_ns),
{
    let mut r = uid.clone();
    push_str(&mut r, "_");
    push_decimal(&mut r, time_ns);
    push_str(&mut r, ".h5");
    r
}

/// The attributes of a run's `start` group.
fn start_attribute_list(s: &StartDoc) -> (r: Vec<(String, String)>)
    ensures
        pairs_view(r@) == start_attributes(*s),
{
    let mut r: Vec<(String, String)> = Vec::new();
    r.push((string_of("uid"), s.uid.clone()));
    r.push((string_of("plan_type"), s.plan_type.clone()));
    r.push((string_of("plan_name"), s.plan_name.clone()));
    let ghost head = r@;
    let mut args = copy_metadata(&s.plan_args);
    let mut meta = copy_metadata(&s.metadata);
    r.append(&mut args);
    r.append(&mut meta);
    proof {
        assert(pairs_view(head) =~= seq![("uid"@, s.uid@), ("plan_type"@, s.plan_type@), ("plan_name"@, s.plan_name@)]);
        assert(pairs_view(r@) =~= pairs_view(head) + pairs_view(s.plan_args@) + pairs_view(s.metadata@));
    }
    r
}

/// The debug rendering of a shape.
fn shape_string(shape: &Vec<u64>) -> (r: String)
    ensures
        r@ == shape_text(shape@),
{
    let mut r = string_of("[");
    let mut i: usize = 0;
    while i < shape.len()
        invariant
            i <= shape.len(),
            r@ == "["@ + list_body(shape@.take(i as int)),
        decreases shape.len() - i,
    {
        let ghost before = r@;
        if i > 0 {
            push_str(&mut r, ", ");
        }
        push_decimal(&mut r, shape[i]);
        proof {
            let t = shape@.take(i + 1);
            assert(t.drop_last() =~= shape@.take(i as int));
            assert(t.last() == shape@[i as int]);
            if i == 0 {
                assert(t.len() == 1 && t[0] == shape@[0]);
                assert(r@ =~= "["@ + list_body(t));
            } else {
                assert(r@ =~= "["@ + list_body(t));
            }
        }
        i = i + 1;
    }
    push_str(&mut r, "]");
    proof {
        assert(shape@.take(shape.len() as int) =~= shape@);
    }
    r
}

/// Position of the latest descriptor with this id.
fn find_descriptor(descs: &Vec<(String, Vec<(String, DataKey)>)>, uid: &String) -> (r: Option<usize>)
    ensures
        match r {
            Some(j) => j < descs.len() && descriptor_keys(descs@, uid@) == Some(descs@[j as int].1@),
            None => descriptor_keys(descs@, uid@) is None,
        },
{
    let mut i: usize = descs.len();
    proof {
        assert(descs@.take(i as int) =~= descs@);
    }
    while i > 0
        invariant
            i <= descs.len(),
            descriptor_keys(descs@.take(i as int), uid@) == descriptor_keys(descs@, uid@),
        decreases i,
    {
        let t = Ghost(descs@.take(i as int));
        proof {
            assert(t@.drop_last() =~= descs@.take(i - 1));
            assert(t@.last() == descs@[i - 1]);
        }
        if descs[i - 1].0 == *uid {
            return Some(i - 1);
        }
        i = i - 1;
    }
    None
}

/// Position of the latest description of key `k`.
fn find_key(keys: &Vec<(String, DataKey)>, k: &String) -> (r: Option<usize>)
    ensures
        match r {
            Some(j) => j < keys.len() && key_lookup(keys@, k@) == Some(keys@[j as int].1),
            None => key_lookup(keys@, k@) is None,
        },
{
    let mut i: usize = keys.len();
    proof {
        assert(keys@.take(i as int) =~= keys@);
    }
    while i > 0
        invariant
            i <= keys.len(),
            key_lookup(keys@.take(i as int), k@) == key_lookup(keys@, k@),
        decreases i,
    {
        let t = Ghost(keys@.take(i as int));
        proof {
            assert(t@.drop_last() =~= keys@.take(i - 1));
            assert(t@.last() == keys@[i - 1]);
        }
        if keys[i - 1].0 == *k {
            return Some(i - 1);
        }
        i = i - 1;
    }
    None
}

/// Little-endian 16-bit samples of a buffer of even length.
fn decode_samples(bytes: &Vec<u8>) -> (r: Vec<u16>)
    ensures
        r@ == le_samples(bytes@),
{
    let n = bytes.len() / 2;
    let mut r: Vec<u16> = Vec::new();
    let mut i: usize = 0;
    while i < n
        invariant
            n == bytes.len() / 2,
            i <= n,
            r@ =~= le_samples(bytes@).take(i as int),
        decreases n - i,
    {
        let lo = bytes[2 * i] as u16;
        let hi = bytes[2 * i + 1] as u16;
        r.push(lo + hi * 256);
        proof {
            assert(le_samples(bytes@).take(i + 1) =~= le_samples(bytes@).take(i as int).push(le_samples(bytes@)[i as int]));
        }
        i = i + 1;
    }
    proof {
        assert(le_samples(bytes@).take(n as int) =~= le_samples(bytes@));
    }
    r
}

/// The datasets of a descriptor's keys.
fn dataset_plans(keys: &Vec<(String, DataKey)>) -> (r: Vec<DatasetPlan>)
    ensures
        r@.map_values(|d: DatasetPlan| d@) == keys@.map_values(|e: (String, DataKey)| dataset_view(e)),
{
    let uint16 = string_of("uint16");
    let mut r: Vec<DatasetPlan> = Vec::new();
    let mut i: usize = 0;
    while i < keys.len()
        invariant
            i <= keys.len(),
            uint16@ == "uint16"@,
            r@.map_values(|d: DatasetPlan| d@) =~= keys@.take(i as int).map_values(|e: (String, DataKey)| dataset_view(e)),
        decreases keys.len() - i,
    {
        let (k, dk) = &keys[i];
        let element = if dk.dtype == uint16 {
            ElementType::U16
        } else {
            ElementType::F64
        };
        let plan = DatasetPlan {
            key: k.clone(),
            element,
            source: dk.source.clone(),
            dtype: dk.dtype.clone(),
            shape: shape_string(&dk.shape),
        };
        let ghost before = r@;
        r.push(plan);
        proof {
            assert(keys@.take(i + 1) =~= keys@.take(i as int).push(keys@[i as int]));
            assert(r@.map_values(|d: DatasetPlan| d@) =~= before.map_values(|d: DatasetPlan| d@).push(dataset_view(keys@[i as int])));
            assert(keys@.take(i + 1).map_values(|e: (String, DataKey)| dataset_view(e)) =~= keys@.take(i as int).map_values(
                |e: (String, DataKey)| dataset_view(e),
            ).push(dataset_view(keys@[i as int])));
        }
        i = i + 1;
    }
    proof {
        assert(keys@.take(keys.len() as int) =~= keys@);
    }
    r
}

/// Append the value and sample actions of an event for the declared keys.
fn event_appends(keys: &Vec<(String, DataKey)>, e: &EventDoc, out: &mut Vec<StoreAction>)
    ensures
        actions_view(final(out)@) == actions_view(old(out)@) + value_appends(keys@, e.data@) + sample_appends(keys@, e.arrays@),
{
    let ghost start = actions_view(out@);
    let mut i: usize = 0;
    while i < e.data.len()
        invariant
            i <= e.data.len(),
            actions_view(out@) == start + value_appends(keys@, e.data@.take(i as int)),
        decreases e.data.len() - i,
    {
        let (k, value) = &e.data[i];
        let ghost d = e.data@.take(i + 1);
        proof {
            assert(d.drop_last() =~= e.data@.take(i as int));
            assert(d.last() == e.data@[i as int]);
        }
        match find_key(keys, k) {
            Some(_) => {
                let a = StoreAction::AppendValue { key: k.clone(), value: *value };
                proof {
                    lemma_actions_push(out@, a);
                }
                out.push(a);
            },
            None => {},
        }
        i = i + 1;
    }
    proof {
        assert(e.data@.take(e.data.len() as int) =~= e.data@);
    }
    let ghost mid = actions_view(out@);
    let uint16 = string_of("uint16");
    let mut j: usize = 0;
    while j < e.arrays.len()
        invariant
            j <= e.arrays.len(),
            uint16@ == "uint16"@,
            actions_view(out@) == mid + sample_appends(keys@, e.arrays@.take(j as int)),
        decreases e.arrays.len() - j,
    {
        let (k, bytes) = &e.arrays[j];
        let ghost d = e.arrays@.take(j + 1);
        proof {
            assert(d.drop_last() =~= e.arrays@.take(j as int));
            assert(d.last() == e.arrays@[j as int]);
        }
        match find_key(keys, k) {
            Some(p) => {
                if keys[p].1.dtype == uint16 && bytes.len() % 2 == 0 {
                    let a = StoreAction::AppendSamples { key: k.clone(), samples: decode_samples(bytes) };
                    proof {
                        lemma_actions_push(out@, a);
                    }
                    out.push(a);
                }
            },
            None => {},
        }
        j = j + 1;
    }
    proof {
        assert(e.arrays@.take(e.arrays.len() as int) =~= e.arrays@);
    }
}

/// Once a descriptor of the open run is recorded, an event naming it
/// stores the event's values and arrays under the keys that descriptor
/// declared, then the event's time.
pub proof fn lemma_event_follows_descriptor(before: Option<ActiveRun>, d: DescriptorDoc, after: Option<ActiveRun>, e: EventDoc)
    requires
        before is Some,
        before->Some_0.run_uid@ == d.run_uid@,
        commits(before, Document::Descriptor(d), after),
        e.descriptor_uid@ == d.uid@,
    ensures
        planned(after, Document::Event(e)) == Ok::<Seq<ActionView>, DocumentError>(
            value_appends(d.data_keys@, e.data@) + sample_appends(d.data_keys@, e.arrays@) + seq![
                ActionView::AppendTimestamp(e.time_ns),
            ],
        ),
{
    let descs = after->Some_0.descriptors@;
    assert(descs.last() == (d.uid, d.data_keys));
    assert(descriptor_keys(descs, e.descriptor_uid@) == Some(d.data_keys@));
}

/// A stop naming the run that a start opened writes its exit status and
/// closes the run.
pub proof fn lemma_stop_closes_started_run(
    before: Option<ActiveRun>,
    s: StartDoc,
    opened: Option<ActiveRun>,
    stop: StopDoc,
    after: Option<ActiveRun>,
)
    requires
        commits(before, Document::Start(s), opened),
        stop.run_uid@ == s.uid@,
        commits(opened, Document::Stop(stop), after),
    ensures
        planned(opened, Document::Stop(stop)) == Ok::<Seq<ActionView>, DocumentError>(
            seq![ActionView::WriteStop(stop.exit_status@)],
        ),
        after is None,
{
}

/// Plans and records the storage of a run's documents.
pub struct DocumentWriter {
    run: Option<ActiveRun>,
}

impl DocumentWriter {
    /// The open run.
    pub closed spec fn active_run(&self) -> Option<ActiveRun> {
        self.run
    }

    /// A writer with no open run.
    pub fn new() -> (r: DocumentWriter)
        ensures
            r.active_run() is None,
    {
        DocumentWriter { run: None }
    }

    /// The file of the open run.
    pub fn run_file(&self) -> (r: Option<&String>)
        ensures
            r == match self.active_run() {
                Some(run) => Some(&run.file_name),
                None => None::<&String>,
            },
    {
        match &self.run {
            Some(run) => Some(&run.file_name),
            None => None,
        }
    }

    /// The file operations a document takes.
    pub fn plan(&self, doc: &Document) -> (r: Result<Vec<StoreAction>, DocumentError>)
        ensures
            r is Ok <==> planned(self.active_run(), *doc) is Ok,
            r is Ok ==> actions_view(r->Ok_0@) == planned(self.active_run(), *doc)->Ok_0,
            r is Err ==> r->Err_0 == planned(self.active_run(), *doc)->Err_0,
    {
        let mut out: Vec<StoreAction> = Vec::new();
        match doc {
            Document::Start(s) => {
                let a = StoreAction::CreateRunFile { file_name: file_name_for(&s.uid, s.time_ns), attributes: start_attribute_list(s) };
                proof {
                    lemma_actions_push(out@, a);
                }
                out.push(a);
            },
            Document::Descriptor(d) => {
                match &self.run {
                    None => {},
                    Some(run) => {
                        if !(run.run_uid == d.run_uid) {
                            return Err(DocumentError::RunMismatch);
                        }
                        let a = StoreAction::CreateDatasets { stream: d.name.clone(), datasets: dataset_plans(&d.data_keys) };
                        proof {
                            lemma_actions_push(out@, a);
                        }
                        out.push(a);
                    },
                }
            },
            Document::Event(e) => {
                match &self.run {
                    None => {},
                    Some(run) => {
                        match find_descriptor(&run.descriptors, &e.descriptor_uid) {
                            None => {},
                            Some(j) => {
                                event_appends(&run.descriptors[j].1, e, &mut out);
                                let a = StoreAction::AppendTimestamp { time_ns: e.time_ns };
                                proof {
                                    lemma_actions_push(out@, a);
                                }
                                out.push(a);
                            },
                        }
                    },
                }
            },
            Document::Stop(s) => {
                match &self.run {
                    Some(run) => {
                        if run.run_uid == s.run_uid {
                            let a = StoreAction::WriteStop { exit_status: s.exit_status.clone() };
                            proof {
                                lemma_actions_push(out@, a);
                            }
                            out.push(a);
                        }
                    },
                    None => {},
                }
            },
            Document::Manifest => {},
        }
        Ok(out)
    }

    /// Record a document whose file operations were carried out.
    pub fn commit(&mut self, doc: Document)
        ensures
            commits(old(self).active_run(), doc, final(self).active_run()),
    {
        match doc {
            Document::Start(s) => {
                let file_name = file_name_for(&s.uid, s.time_ns);
                self.run = Some(ActiveRun { run_uid: s.uid, file_name, descriptors: Vec::new() });
            },
            Document::Descriptor(d) => {
                let cur = self.run.take();
                self.run = match cur {
                    Some(mut run) => {
                        if run.run_uid == d.run_uid {
                            run.descriptors.push((d.uid, d.data_keys));
                        }
                        Some(run)
                    },
                    None => None,
                };
            },
            Document::Stop(s) => {
                let closes = match &self.run {
                    Some(run) => run.run_uid == s.run_uid,
                    None => false,
                };
                if closes {
                    self.run = None;
                }
            },
            _ => {},
        }
    }
}

} // verus!
