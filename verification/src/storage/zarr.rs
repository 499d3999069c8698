//! Zarr arrays: what an array request must give before the store creates
//! it, and the catalogue of created arrays that chunks are written to.

use vstd::prelude::*;
use crate::text::{decimal, push_decimal, push_str, string_of};

verus! {

/// Element types of Zarr arrays.
#[derive(Debug, Clone, Copy, PartialEq, Eq, Structural)]
pub enum ZarrDataType {
    UInt8,
    UInt16,
    UInt32,
    UInt64,
    Int8,
    Int16,
    Int32,
    Int64,
    Float32,
    Float64,
}

/// A request for an array, filled in step by step.
pub struct ZarrArrayBuilder {
    pub name: Option<String>,
    pub shape: Option<Vec<u64>>,
    pub chunks: Option<Vec<u64>>,
    pub dimensions: Option<Vec<String>>,
    pub data_type: Option<ZarrDataType>,
    pub attributes: Vec<(String, serde_json::Value)>,
}

/// An array request that gives everything an array needs. The fill value
/// is the zero of the element type.
pub struct ArrayPlan {
    pub name: String,
    /// Where the array lives in the store: `/` and the name.
    pub path: String,
    pub shape: Vec<u64>,
    pub chunks: Vec<u64>,
    pub data_type: ZarrDataType,
    pub dimension_names: Option<Vec<String>>,
    /// The custom attributes, then, when names are given,
    /// `_ARRAY_DIMENSIONS` with the names as a JSON list.
    pub attributes: Vec<(String, serde_json::Value)>,
}

/// The JSON list of the given texts (`serde_json::Value::from` on a list of
/// strings).
pub uninterp spec fn json_string_list(texts: Seq<Seq<char>>) -> serde_json::Value;

/// Texts as plain values.
pub open spec fn texts_view(v: Seq<String>) -> Seq<Seq<char>> {
    v.map_values(|s: String| s@)
}

/// `serde_json::Value::from` on a list of strings: the JSON list of them.
#[verifier::external_body]
fn string_list_value(texts: &Vec<String>) -> (r: serde_json::Value)
    ensures
        r == json_string_list(texts_view(texts@)),
{
    serde_json::Value::from(texts.clone())
}

/// The message for a shape and chunk list of different lengths.
pub open spec fn chunk_mismatch_message(shape_len: nat, chunk_len: nat) -> Seq<char> {
    "Shape dimensions ("@ + decimal(shape_len) + ") must match chunk dimensions ("@ + decimal(chunk_len) + ")"@
}

/// The message for dimension names that do not match the shape.
pub open spec fn names_mismatch_message(names_len: nat, shape_len: nat) -> Seq<char> {
    "Dimension names ("@ + decimal(names_len) + ") must match shape dimensions ("@ + decimal(shape_len) + ")"@
}

/// Why a request cannot become an array, checked in order: a missing name,
/// shape, chunk list or element type; a chunk list of another length than
/// the shape; dimension names of another length than the shape.
pub open spec fn request_problem(b: ZarrArrayBuilder) -> Option<Seq<char>> {
    if b.name is None {
        Some("Array name is required"@)
    } else if b.shape is None {
        Some("Array shape is required"@)
    } else if b.chunks is None {
        Some("Chunk sizes are required"@)
    } else if b.data_type is None {
        Some("Data type is required"@)
    } else if b.shape->Some_0@.len() != b.chunks->Some_0@.len() {
        Some(chunk_mismatch_message(b.shape->Some_0@.len(), b.chunks->Some_0@.len()))
    } else if b.dimensions is Some && b.dimensions->Some_0@.len() != b.shape->Some_0@.len() {
        Some(names_mismatch_message(b.dimensions->Some_0@.len(), b.shape->Some_0@.len()))
    } else {
        None
    }
}

impl ZarrArrayBuilder {
    /// An empty request.
    pub fn new() -> (r: Self)
        ensures
            r.name is None,
            r.shape is None,
            r.chunks is None,
            r.dimensions is None,
            r.data_type is None,
            r.attributes@.len() == 0,
    {
        ZarrArrayBuilder { name: None, shape: None, chunks: None, dimensions: None, data_type: None, attributes: Vec::new() }
    }

    /// Name the array (its path in the store).
    pub fn name(self, name: &str) -> (r: Self)
        ensures
            r.name matches Some(n) && n@ == name@,
            r.shape == self.shape && r.chunks == self.chunks && r.dimensions == self.dimensions,
            r.data_type == self.data_type && r.attributes == self.attributes,
    {
        ZarrArrayBuilder { name: Some(string_of(name)), ..self }
    }

    /// The array's dimensions.
    pub fn shape(self, dims: Vec<u64>) -> (r: Self)
        ensures
            r == (ZarrArrayBuilder { shape: Some(dims), ..self }),
    {
        ZarrArrayBuilder { shape: Some(dims), ..self }
    }

    /// The chunk sizes, one per dimension.
    pub fn chunks(self, sizes: Vec<u64>) -> (r: Self)
        ensures
            r == (ZarrArrayBuilder { chunks: Some(sizes), ..self }),
    {
        ZarrArrayBuilder { chunks: Some(sizes), ..self }
    }

    /// The dimension names, one per dimension.
    pub fn dimensions(self, names: Vec<String>) -> (r: Self)
        ensures
            r == (ZarrArrayBuilder { dimensions: Some(names), ..self }),
    {
        ZarrArrayBuilder { dimensions: Some(names), ..self }
    }

    /// The element type (the fill value is its zero).
    pub fn dtype(self, t: ZarrDataType) -> (r: Self)
        ensures
            r == (ZarrArrayBuilder { data_type: Some(t), ..self }),
    {
        ZarrArrayBuilder { data_type: Some(t), ..self }
    }

    pub fn dtype_u8(self) -> (r: Self)
        ensures
            r == (ZarrArrayBuilder { data_type: Some(ZarrDataType::UInt8), ..self }),
    {
        self.dtype(ZarrDataType::UInt8)
    }

    pub fn dtype_u16(self) -> (r: Self)
        ensures
            r == (ZarrArrayBuilder { data_type: Some(ZarrDataType::UInt16), ..self }),
    {
        self.dtype(ZarrDataType::UInt16)
    }

    pub fn dtype_u32(self) -> (r: Self)
        ensures
            r == (ZarrArrayBuilder { data_type: Some(ZarrDataType::UInt32), ..self }),
    {
        self.dtype(ZarrDataType::UInt32)
    }

    pub fn dtype_u64(self) -> (r: Self)
        ensures
            r == (ZarrArrayBuilder { data_type: Some(ZarrDataType::UInt64), ..self }),
    {
        self.dtype(ZarrDataType::UInt64)
    }

    pub fn dtype_i8(self) -> (r: Self)
        ensures
            r == (ZarrArrayBuilder { data_type: Some(ZarrDataType::Int8), ..self }),
    {
        self.dtype(ZarrDataType::Int8)
    }

    pub fn dtype_i16(self) -> (r: Self)
        ensures
            r == (ZarrArrayBuilder { data_type: Some(ZarrDataType::Int16), ..self }),
    {
        self.dtype(ZarrDataType::Int16)
    }

    pub fn dtype_i32(self) -> (r: Self)
        ensures
            r == (ZarrArrayBuilder { data_type: Some(ZarrDataType::Int32), ..self }),
    {
        self.dtype(ZarrDataType::Int32)
    }

    pub fn dtype_i64(self) -> (r: Self)
        ensures
            r == (ZarrArrayBuilder { data_type: Some(ZarrDataType::Int64), ..self }),
    {
        self.dtype(ZarrDataType::Int64)
    }

    pub fn dtype_f32(self) -> (r: Self)
        ensures
            r == (ZarrArrayBuilder { data_type: Some(ZarrDataType::Float32), ..self }),
    {
        self.dtype(ZarrDataType::Float32)
    }

    pub fn dtype_f64(self) -> (r: Self)
        ensures
            r == (ZarrArrayBuilder { data_type: Some(ZarrDataType::Float64), ..self }),
    {
        self.dtype(ZarrDataType::Float64)
    }

    /// Add a custom attribute.
    pub fn attribute(self, key: &str, value: serde_json::Value) -> (r: Self)
        ensures
            r.attributes@.len() == self.attributes@.len() + 1,
            r.attributes@.drop_last() == self.attributes@,
            r.attributes@.last().0@ == key@,
            r.attributes@.last().1 == value,
            r.name == self.name && r.shape == self.shape && r.chunks == self.chunks,
            r.dimensions == self.dimensions && r.data_type == self.data_type,
    {
        let mut s = self;
        s.attributes.push((string_of(key), value));
        proof {
            assert(s.attributes@.drop_last() =~= self.attributes@);
        }
        s
    }

    /// Check the request: the plan of the array, or why it cannot be made.
    pub fn validate(self) -> (r: Result<ArrayPlan, String>)
        ensures
            r is Err <==> request_problem(self) is Some,
            r matches Err(m) ==> m@ == request_problem(self)->Some_0,
            r matches Ok(p) ==> {
                &&& p.name == self.name->Some_0
                &&& p.path@ == "/"@ + self.name->Some_0@
                &&& p.shape == self.shape->Some_0
                &&& p.chunks == self.chunks->Some_0
                &&& p.data_type == self.data_type->Some_0
                &&& p.dimension_names == self.dimensions
                &&& self.dimensions is None ==> p.attributes == self.attributes
                &&& self.dimensions is Some ==> p.attributes@.drop_last() == self.attributes@
                    && p.attributes@.len() == self.attributes@.len() + 1
                    && p.attributes@.last().0@ == "_ARRAY_DIMENSIONS"@
                    && p.attributes@.last().1 == json_string_list(texts_view(self.dimensions->Some_0@))
            },
    {
        let ghost b = self;
        let ZarrArrayBuilder { name, shape, chunks, dimensions, data_type, attributes } = self;
        let mut attributes = attributes;
        let name = match name {
            Some(n) => n,
            None => {
                return Err(string_of("Array name is required"));
            },
        };
        let shape = match shape {
            Some(s) => s,
            None => {
                return Err(string_of("Array shape is required"));
            },
        };
        let chunks = match chunks {
            Some(c) => c,
            None => {
                return Err(string_of("Chunk sizes are required"));
            },
        };
        let data_type = match data_type {
            Some(t) => t,
            None => {
                return Err(string_of("Data type is required"));
            },
        };
        if shape.len() != chunks.len() {
            let mut m = string_of("Shape dimensions (");
            push_decimal(&mut m, shape.len() as u64);
            push_str(&mut m, ") must match chunk dimensions (");
            push_decimal(&mut m, chunks.len() as u64);
            push_str(&mut m, ")");
            return Err(m);
        }
        match &dimensions {
            Some(d) => {
                if d.len() != shape.len() {
                    let mut m = string_of("Dimension names (");
                    push_decimal(&mut m, d.len() as u64);
                    push_str(&mut m, ") must match shape dimensions (");
                    push_decimal(&mut m, shape.len() as u64);
                    push_str(&mut m, ")");
                    return Err(m);
                }
                let ghost before = attributes@;
                attributes.push((string_of("_ARRAY_DIMENSIONS"), string_list_value(d)));
                proof {
                    assert(attributes@.drop_last() =~= before);
                }
            },
            None => {},
        }
        let mut path = string_of("/");
        push_str(&mut path, name.as_str());
        Ok(ArrayPlan { name, path, shape, chunks, data_type, dimension_names: dimensions, attributes })
    }
}

/// The name an array is known by, where it lives and its element type.
pub struct ArrayEntry {
    pub name: String,
    pub path: String,
    pub data_type: ZarrDataType,
}

/// The arrays a store has created; a later entry for a name wins.
pub open spec fn entry_for(entries: Seq<ArrayEntry>, name: Seq<char>) -> Option<ArrayEntry>
    decreases entries.len(),
{
    if entries.len() == 0 {
        None
    } else if entries.last().name@ == name {
        Some(entries.last())
    } else {
        entry_for(entries.drop_last(), name)
    }
}

/// The message for a chunk written to an array the store does not have.
pub open spec fn not_found_message(name: Seq<char>) -> Seq<char> {
    "Array '"@ + name + "' not found"@
}

/// The arrays created in a store, by name.
pub struct ZarrArrays {
    entries: Vec<ArrayEntry>,
}

impl ZarrArrays {
    pub closed spec fn entries(&self) -> Seq<ArrayEntry> {
        self.entries@
    }

    /// No arrays yet.
    pub fn new() -> (r: Self)
        ensures
            r.entries().len() == 0,
    {
        ZarrArrays { entries: Vec::new() }
    }

    /// Record a created array; it replaces an array of the same name.
    pub fn register(&mut self, plan: &ArrayPlan)
        ensures
            final(self).entries().len() == old(self).entries().len() + 1,
            final(self).entries().drop_last() == old(self).entries(),
            final(self).entries().last().name == plan.name,
            final(self).entries().last().path == plan.path,
            final(self).entries().last().data_type == plan.data_type,
    {
        let ghost before = self.entries@;
        self.entries.push(ArrayEntry { name: plan.name.clone(), path: plan.path.clone(), data_type: plan.data_type });
        proof {
            assert(self.entries@.drop_last() =~= before);
        }
    }

    /// Where the array of this name lives, for writing a chunk to it.
    pub fn array_path(&self, name: &str) -> (r: Result<String, String>)
        ensures
            r is Ok <==> entry_for(self.entries(), name@) is Some,
            r matches Ok(p) ==> p == entry_for(self.entries(), name@)->Some_0.path,
            r matches Err(m) ==> m@ == not_found_message(name@),
    {
        let wanted = string_of(name);
        let mut i: usize = self.entries.len();
        proof {
            assert(self.entries@.take(i as int) =~= self.entries@);
        }
        while i > 0
            invariant
                i <= self.entries@.len(),
                wanted@ == name@,
                entry_for(self.entries@.take(i as int), name@) == entry_for(self.entries@, name@),
            decreases i,
        {
            let ghost t = self.entries@.take(i as int);
            proof {
                assert(t.drop_last() =~= self.entries@.take(i - 1));
                assert(t.last() == self.entries@[i - 1]);
            }
            if self.entries[i - 1].name == wanted {
                return Ok(self.entries[i - 1].path.clone());
            }
            i = i - 1;
        }
        let mut m = string_of("Array '");
        push_str(&mut m, name);
        push_str(&mut m, "' not found");
        Err(m)
    }
}

} // verus!
