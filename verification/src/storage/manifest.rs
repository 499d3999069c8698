//! Layout of an experiment manifest in a data file.
//!
//! A manifest is stored in a `manifest` group: its time stamp, run id and
//! plan as attributes, then one subgroup per device under `parameters` with
//! each parameter as JSON text, then `system` and `metadata` subgroups with
//! their texts. Groups are opened where they exist and created otherwise.

use vstd::prelude::*;

verus! {

/// What an experiment recorded about itself.
pub struct ExperimentManifest {
    pub timestamp_ns: u64,
    pub run_uid: String,
    pub plan_type: String,
    pub plan_name: String,
    /// Device parameters by device, each as a JSON value.
    pub parameters: Vec<(String, Vec<(String, serde_json::Value)>)>,
    pub system_info: Vec<(String, String)>,
    pub metadata: Vec<(String, String)>,
}

/// The value of an attribute.
pub enum AttributeValue {
    Count(u64),
    Text(String),
}

/// One step of storing a manifest.
pub enum ManifestWrite {
    /// Open the group at this path, creating it when missing.
    Group { path: Vec<String> },
    /// Write an attribute of the group at this path.
    Attribute { group: Vec<String>, name: String, value: AttributeValue },
}

/// An attribute value as plain values.
pub enum AttributeView {
    Count(u64),
    Text(Seq<char>),
}

/// A manifest step as plain values.
pub enum WriteView {
    Group(Seq<Seq<char>>),
    Attribute(Seq<Seq<char>>, Seq<char>, AttributeView),
}

/// Why a manifest cannot be stored.
#[derive(Clone, Copy, PartialEq, Eq, Debug, Structural)]
pub enum ManifestError {
    /// A parameter value could not be turned into JSON text.
    Serialize,
}

impl View for AttributeValue {
    type V = AttributeView;

    open spec fn view(&self) -> AttributeView {
        match self {
            AttributeValue::Count(n) => AttributeView::Count(*n),
            AttributeValue::Text(t) => AttributeView::Text(t@),
        }
    }
}

/// A path of group names as plain values.
pub open spec fn path_view(p: Seq<String>) -> Seq<Seq<char>> {
    p.map_values(|s: String| s@)
}

impl View for ManifestWrite {
    type V = WriteView;

    open spec fn view(&self) -> WriteView {
        match self {
            ManifestWrite::Group { path } => WriteView::Group(path_view(path@)),
            ManifestWrite::Attribute { group, name, value } => WriteView::Attribute(path_view(group@), name@, value@),
        }
    }
}

/// Manifest steps as plain values.
pub open spec fn writes_view(v: Seq<ManifestWrite>) -> Seq<WriteView> {
    v.map_values(|w: ManifestWrite| w@)
}

pub open spec fn manifest_path() -> Seq<Seq<char>> {
    seq!["manifest"@]
}

pub open spec fn parameters_path() -> Seq<Seq<char>> {
    seq!["manifest"@, "parameters"@]
}

pub open spec fn device_path(device: Seq<char>) -> Seq<Seq<char>> {
    seq!["manifest"@, "parameters"@, device]
}

pub open spec fn system_path() -> Seq<Seq<char>> {
    seq!["manifest"@, "system"@]
}

pub open spec fn metadata_path() -> Seq<Seq<char>> {
    seq!["manifest"@, "metadata"@]
}

/// Text attributes of one group, in the order given.
pub open spec fn text_attributes(group: Seq<Seq<char>>, pairs: Seq<(String, String)>) -> Seq<WriteView> {
    pairs.map_values(|p: (String, String)| WriteView::Attribute(group, p.0@, AttributeView::Text(p.1@)))
}

/// The parameter names of a device, in order.
pub open spec fn parameter_names(params: Seq<(String, serde_json::Value)>) -> Seq<Seq<char>> {
    params.map_values(|p: (String, serde_json::Value)| p.0@)
}

/// The steps for one device: its group, then each parameter with its text.
pub open spec fn device_writes(device: Seq<char>, names: Seq<Seq<char>>, texts: Seq<Seq<char>>) -> Seq<WriteView> {
    seq![WriteView::Group(device_path(device))] + Seq::new(
        names.len(),
        |i: int| WriteView::Attribute(device_path(device), names[i], AttributeView::Text(texts[i])),
    )
}

/// The steps for the first `k` devices.
pub open spec fn parameter_writes(
    devices: Seq<(String, Vec<(String, serde_json::Value)>)>,
    texts: Seq<Seq<Seq<char>>>,
    k: int,
) -> Seq<WriteView>
    decreases k,
{
    if k <= 0 {
        Seq::empty()
    } else {
        parameter_writes(devices, texts, k - 1) + device_writes(
            devices[k - 1].0@,
            parameter_names(devices[k - 1].1@),
            texts[k - 1],
        )
    }
}

/// The texts fit the manifest's parameters: one list per device, one text
/// per parameter.
pub open spec fn texts_fit(m: ExperimentManifest, texts: Seq<Seq<Seq<char>>>) -> bool {
    &&& texts.len() == m.parameters@.len()
    &&& forall|d: int| 0 <= d < texts.len() ==> #[trigger] texts[d].len() == m.parameters@[d].1@.len()
}

/// Every step of storing a manifest whose parameters read as `texts`.
pub open spec fn manifest_plan(m: ExperimentManifest, texts: Seq<Seq<Seq<char>>>) -> Seq<WriteView> {
    seq![
        WriteView::Group(manifest_path()),
        WriteView::Attribute(manifest_path(), "timestamp_ns"@, AttributeView::Count(m.timestamp_ns)),
        WriteView::Attribute(manifest_path(), "run_uid"@, AttributeView::Text(m.run_uid@)),
        WriteView::Attribute(manifest_path(), "plan_type"@, AttributeView::Text(m.plan_type@)),
        WriteView::Attribute(manifest_path(), "plan_name"@, AttributeView::Text(m.plan_name@)),
        WriteView::Group(parameters_path()),
    ] + parameter_writes(m.parameters@, texts, m.parameters@.len() as int) + seq![WriteView::Group(system_path())]
        + text_attributes(system_path(), m.system_info@) + seq![WriteView::Group(metadata_path())]
        + text_attributes(metadata_path(), m.metadata@)
}

/// The JSON text `serde_json::to_string` writes for a JSON value.
pub uninterp spec fn json_text_of(value: serde_json::Value) -> Seq<char>;

/// `serde_json::to_string` on a JSON value; `None` where it reports an
/// error. serde_json documents that serializing fails only where a type's
/// `Serialize` decides to fail or a map has keys that are not strings, and
/// `Value`'s `Serialize` never fails and keys its maps by strings, so the
/// call always succeeds. Its text depends on the value alone.
#[verifier::external_body]
fn json_text(value: &serde_json::Value) -> (r: Option<String>)
    ensures
        r is Some,
        r matches Some(s) ==> s@ == json_text_of(*value),
{
    match serde_json::to_string(value) {
        Ok(s) => Some(s),
        Err(_) => None,
    }
}

/// The JSON texts of one device's parameter values, in order.
pub open spec fn value_texts(params: Seq<(String, serde_json::Value)>) -> Seq<Seq<char>> {
    params.map_values(|p: (String, serde_json::Value)| json_text_of(p.1))
}

/// The JSON texts of every device's parameter values.
pub open spec fn parameter_texts(devices: Seq<(String, Vec<(String, serde_json::Value)>)>) -> Seq<Seq<Seq<char>>> {
    devices.map_values(|d: (String, Vec<(String, serde_json::Value)>)| value_texts(d.1@))
}

fn manifest_group_path() -> (r: Vec<String>)
    ensures
        path_view(r@) == manifest_path(),
{
    let mut r: Vec<String> = Vec::new();
    r.push("manifest".to_string());
    proof {
        assert(path_view(r@) =~= manifest_path());
    }
    r
}

fn sub_path(name: &str) -> (r: Vec<String>)
    ensures
        path_view(r@) == seq!["manifest"@, name@],
{
    let mut r: Vec<String> = Vec::new();
    r.push("manifest".to_string());
    r.push(name.to_string());
    proof {
        assert(path_view(r@) =~= seq!["manifest"@, name@]);
    }
    r
}

fn device_group_path(device: &String) -> (r: Vec<String>)
    ensures
        path_view(r@) == device_path(device@),
{
    let mut r: Vec<String> = Vec::new();
    r.push("manifest".to_string());
    r.push("parameters".to_string());
    r.push(device.clone());
    proof {
        assert(path_view(r@) =~= device_path(device@));
    }
    r
}

/// Append text attributes of a group.
fn push_text_attributes(out: &mut Vec<ManifestWrite>, group: &str, pairs: &Vec<(String, String)>)
    ensures
        writes_view(final(out)@) == writes_view(old(out)@) + text_attributes(seq!["manifest"@, group@], pairs@),
{
    let ghost start = writes_view(out@);
    let mut i: usize = 0;
    while i < pairs.len()
        invariant
            i <= pairs@.len(),
            writes_view(out@) == start + text_attributes(seq!["manifest"@, group@], pairs@.take(i as int)),
        decreases pairs@.len() - i,
    {
        let (k, v) = &pairs[i];
        let ghost before = out@;
        let w = ManifestWrite::Attribute { group: sub_path(group), name: k.clone(), value: AttributeValue::Text(v.clone()) };
        out.push(w);
        proof {
            let g = seq!["manifest"@, group@];
            assert(out@ =~= before.push(w));
            assert(writes_view(out@) =~= writes_view(before).push(w@));
            assert(w@ == WriteView::Attribute(g, pairs@[i as int].0@, AttributeView::Text(pairs@[i as int].1@)));
            assert(pairs@.take(i + 1) =~= pairs@.take(i as int).push(pairs@[i as int]));
            assert(text_attributes(g, pairs@.take(i + 1)) =~= text_attributes(g, pairs@.take(i as int)).push(w@));
            assert(writes_view(out@) =~= start + text_attributes(g, pairs@.take(i + 1)));
        }
        i = i + 1;
    }
    proof {
        assert(pairs@.take(pairs@.len() as int) =~= pairs@);
    }
}

/// Append the steps of one device.
fn push_device(out: &mut Vec<ManifestWrite>, device: &String, names: &Vec<(String, serde_json::Value)>, texts: &Vec<String>)
    requires
        texts@.len() == names@.len(),
    ensures
        writes_view(final(out)@) == writes_view(old(out)@) + device_writes(
            device@,
            parameter_names(names@),
            path_view(texts@),
        ),
{
    let ghost start = writes_view(out@);
    out.push(ManifestWrite::Group { path: device_group_path(device) });
    proof {
        assert(writes_view(out@) =~= start + seq![WriteView::Group(device_path(device@))]);
    }
    let mut i: usize = 0;
    while i < names.len()
        invariant
            i <= names@.len(),
            texts@.len() == names@.len(),
            writes_view(out@) == start + device_writes(device@, parameter_names(names@).take(i as int), path_view(texts@).take(i as int)),
        decreases names@.len() - i,
    {
        let ghost before = out@;
        let w = ManifestWrite::Attribute {
            group: device_group_path(device),
            name: names[i].0.clone(),
            value: AttributeValue::Text(texts[i].clone()),
        };
        out.push(w);
        proof {
            let a = parameter_names(names@);
            let b = path_view(texts@);
            assert(out@ =~= before.push(w));
            assert(writes_view(out@) =~= writes_view(before).push(w@));
            assert(w@ == WriteView::Attribute(device_path(device@), a[i as int], AttributeView::Text(b[i as int])));
            assert(device_writes(device@, a.take(i + 1), b.take(i + 1)) =~= device_writes(device@, a.take(i as int), b.take(i as int)).push(w@));
            assert(writes_view(out@) =~= start + device_writes(device@, a.take(i + 1), b.take(i + 1)));
        }
        i = i + 1;
    }
    proof {
        assert(parameter_names(names@).take(names@.len() as int) =~= parameter_names(names@));
        assert(path_view(texts@).take(names@.len() as int) =~= path_view(texts@));
    }
}

/// The texts of the parameters as plain values.
pub open spec fn texts_view(t: Seq<Vec<String>>) -> Seq<Seq<Seq<char>>> {
    t.map_values(|v: Vec<String>| path_view(v@))
}

/// Every step of storing a manifest, given the JSON text of each parameter
/// (one list per device, one text per parameter, in order).
pub fn manifest_layout(m: &ExperimentManifest, texts: &Vec<Vec<String>>) -> (r: Vec<ManifestWrite>)
    requires
        texts_fit(*m, texts_view(texts@)),
    ensures
        writes_view(r@) == manifest_plan(*m, texts_view(texts@)),
{
    let ghost tv = texts_view(texts@);
    let mut out: Vec<ManifestWrite> = Vec::new();
    out.push(ManifestWrite::Group { path: manifest_group_path() });
    out.push(ManifestWrite::Attribute { group: manifest_group_path(), name: "timestamp_ns".to_string(), value: AttributeValue::Count(m.timestamp_ns) });
    out.push(ManifestWrite::Attribute { group: manifest_group_path(), name: "run_uid".to_string(), value: AttributeValue::Text(m.run_uid.clone()) });
    out.push(ManifestWrite::Attribute { group: manifest_group_path(), name: "plan_type".to_string(), value: AttributeValue::Text(m.plan_type.clone()) });
    out.push(ManifestWrite::Attribute { group: manifest_group_path(), name: "plan_name".to_string(), value: AttributeValue::Text(m.plan_name.clone()) });
    out.push(ManifestWrite::Group { path: sub_path("parameters") });
    let ghost head = writes_view(out@);
    proof {
        assert(head =~= seq![
            WriteView::Group(manifest_path()),
            WriteView::Attribute(manifest_path(), "timestamp_ns"@, AttributeView::Count(m.timestamp_ns)),
            WriteView::Attribute(manifest_path(), "run_uid"@, AttributeView::Text(m.run_uid@)),
            WriteView::Attribute(manifest_path(), "plan_type"@, AttributeView::Text(m.plan_type@)),
            WriteView::Attribute(manifest_path(), "plan_name"@, AttributeView::Text(m.plan_name@)),
            WriteView::Group(parameters_path()),
        ]);
    }
    let mut d: usize = 0;
    while d < m.parameters.len()
        invariant
            d <= m.parameters@.len(),
            tv == texts_view(texts@),
            texts_fit(*m, tv),
            writes_view(out@) == head + parameter_writes(m.parameters@, tv, d as int),
        decreases m.parameters@.len() - d,
    {
        let (device, params) = &m.parameters[d];
        assert(texts@[d as int]@.len() == params@.len()) by {
            assert(tv[d as int].len() == m.parameters@[d as int].1@.len());
        }
        push_device(&mut out, device, params, &texts[d]);
        proof {
            assert(head + parameter_writes(m.parameters@, tv, d + 1) =~= head + parameter_writes(m.parameters@, tv, d as int)
                + device_writes(device@, parameter_names(params@), tv[d as int]));
        }
        d = d + 1;
    }
    let ghost mid = writes_view(out@);
    let g1 = ManifestWrite::Group { path: sub_path("system") };
    let ghost b1 = out@;
    out.push(g1);
    proof {
        assert(out@ =~= b1.push(g1));
        assert(writes_view(out@) =~= mid + seq![WriteView::Group(system_path())]);
    }
    let ghost m1 = writes_view(out@);
    push_text_attributes(&mut out, "system", &m.system_info);
    let ghost m2 = writes_view(out@);
    let g2 = ManifestWrite::Group { path: sub_path("metadata") };
    let ghost b2 = out@;
    out.push(g2);
    proof {
        assert(out@ =~= b2.push(g2));
        assert(writes_view(out@) =~= m2 + seq![WriteView::Group(metadata_path())]);
    }
    let ghost m3 = writes_view(out@);
    push_text_attributes(&mut out, "metadata", &m.metadata);
    proof {
        assert(m1 == mid + seq![WriteView::Group(system_path())]);
        assert(m2 == m1 + text_attributes(system_path(), m.system_info@));
        assert(m3 == m2 + seq![WriteView::Group(metadata_path())]);
        assert(writes_view(out@) == m3 + text_attributes(metadata_path(), m.metadata@));
        assert(writes_view(out@) =~= manifest_plan(*m, tv));
    }
    out
}

/// Every step of storing a manifest: each parameter value is turned into
/// its JSON text, then laid out as `manifest_layout` says. Every JSON value
/// can be turned into text, so this always succeeds.
pub fn manifest_writes(m: &ExperimentManifest) -> (r: Result<Vec<ManifestWrite>, ManifestError>)
    ensures
        r is Ok,
        r matches Ok(w) ==> writes_view(w@) == manifest_plan(*m, parameter_texts(m.parameters@)),
{
    let ghost want = parameter_texts(m.parameters@);
    let mut all: Vec<Vec<String>> = Vec::new();
    let mut d: usize = 0;
    while d < m.parameters.len()
        invariant
            d <= m.parameters@.len(),
            want == parameter_texts(m.parameters@),
            texts_view(all@) == want.take(d as int),
        decreases m.parameters@.len() - d,
    {
        let params = &m.parameters[d].1;
        let mut texts: Vec<String> = Vec::new();
        let mut i: usize = 0;
        while i < params.len()
            invariant
                i <= params@.len(),
                path_view(texts@) == value_texts(params@).take(i as int),
            decreases params@.len() - i,
        {
            match json_text(&params[i].1) {
                Some(t) => {
                    let ghost tb = texts@;
                    proof {
                        assert(t@ == json_text_of(params@[i as int].1));
                        assert(value_texts(params@)[i as int] == json_text_of(params@[i as int].1));
                    }
                    texts.push(t);
                    proof {
                        assert(texts@ =~= tb.push(t));
                        assert(path_view(texts@) =~= path_view(tb).push(t@));
                        assert(value_texts(params@).take(i + 1) =~= value_texts(params@).take(i as int).push(
                            value_texts(params@)[i as int],
                        ));
                        assert(path_view(texts@) =~= value_texts(params@).take(i + 1));
                    }
                },
                None => return Err(ManifestError::Serialize),
            }
            i = i + 1;
        }
        proof {
            assert(value_texts(params@).take(params@.len() as int) =~= value_texts(params@));
        }
        let ghost before = all@;
        all.push(texts);
        proof {
            assert(all@ =~= before.push(texts));
            assert(texts_view(all@) =~= texts_view(before).push(path_view(texts@)));
            assert(want[d as int] == value_texts(m.parameters@[d as int].1@));
            assert(want.take(d + 1) =~= want.take(d as int).push(want[d as int]));
            assert(texts_view(all@) =~= want.take(d + 1));
        }
        d = d + 1;
    }
    proof {
        assert(texts_view(all@) =~= want);
        assert forall|j: int| 0 <= j < want.len() implies #[trigger] want[j].len() == m.parameters@[j].1@.len() by {}
    }
    let w = manifest_layout(m, &all);
    Ok(w)
}

} // verus!
