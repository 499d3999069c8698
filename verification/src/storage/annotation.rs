//! User notes and tags on completed runs.
//!
//! A run's annotation lives in two attributes of its `/start` group: the
//! notes as text, and the tags as a JSON array of strings. Builds without
//! HDF5 storage cannot touch run files: writing an annotation fails, and
//! reading one finds none.

use vstd::prelude::*;
use crate::text::string_of;

verus! {

/// Notes and tags of a run.
#[derive(Debug)]
pub struct RunAnnotation {
    pub notes: String,
    pub tags: Vec<String>,
}

/// Texts of a list of strings.
pub open spec fn texts_of(v: Seq<String>) -> Seq<Seq<char>> {
    v.map_values(|s: String| s@)
}

/// The JSON text `serde_json::to_string` produces for a list of strings.
pub uninterp spec fn json_of_strings(items: Seq<Seq<char>>) -> Seq<char>;

/// The list of strings `serde_json::from_str::<Vec<String>>` reads from a
/// text, or `None` where it reports an error.
pub uninterp spec fn strings_of_json(text: Seq<char>) -> Option<Seq<Seq<char>>>;

/// `serde_json::to_string` on a list of strings; `None` where it reports an
/// error. serde_json documents that serializing fails only where a type's
/// `Serialize` decides to fail or a map has keys that are not strings, and
/// a list of strings does neither, so the call always succeeds. Its output
/// depends on the list alone, and `serde_json::from_str::<Vec<String>>`
/// reads the same list back from it (strings are written with escapes that
/// the reader undoes).
#[verifier::external_body]
fn encode_tags(tags: &Vec<String>) -> (r: Option<String>)
    ensures
        r is Some,
        r matches Some(s) ==> s@ == json_of_strings(texts_of(tags@)),
        r matches Some(s) ==> strings_of_json(s@) == Some(texts_of(tags@)),
{
    match serde_json::to_string(tags) {
        Ok(s) => Some(s),
        Err(_) => None,
    }
}

/// `serde_json::from_str::<Vec<String>>`: the list a JSON text denotes,
/// or `None` where it reports an error.
#[verifier::external_body]
fn decode_tags(text: &str) -> (r: Option<Vec<String>>)
    ensures
        match r {
            Some(v) => strings_of_json(text@) == Some(texts_of(v@)),
            None => strings_of_json(text@) is None,
        },
{
    match serde_json::from_str::<Vec<String>>(text) {
        Ok(v) => Some(v),
        Err(_) => None,
    }
}

/// The message for an annotation request in a build without HDF5 storage.
pub open spec fn no_storage_message() -> Seq<char> {
    "HDF5 storage feature not enabled"@
}

/// Add or replace the annotation of a run file. This build has no HDF5
/// storage, so the request always fails.
pub fn add_run_annotation(file_path: &str, annotation: &RunAnnotation) -> (r: Result<(), String>)
    ensures
        r matches Err(m) && m@ == no_storage_message(),
{
    Err(string_of("HDF5 storage feature not enabled"))
}

/// Read the annotation of a run file. This build has no HDF5 storage, so
/// there is never one to read.
pub fn read_run_annotations(file_path: &str) -> (r: Result<Option<RunAnnotation>, String>)
    ensures
        r matches Ok(a) && a is None,
{
    Ok(None)
}

/// An optional text as plain values.
pub open spec fn opt_text(t: Option<String>) -> Option<Seq<char>> {
    match t {
        Some(s) => Some(s@),
        None => None,
    }
}

/// The notes and tags read back from stored attributes: missing notes read
/// as empty, missing or unreadable tags as none; nothing when both are empty.
pub open spec fn decoded_annotation(notes: Option<Seq<char>>, tags_json: Option<Seq<char>>) -> Option<
    (Seq<char>, Seq<Seq<char>>),
> {
    let n = match notes {
        Some(s) => s,
        None => Seq::<char>::empty(),
    };
    let t = match tags_json {
        Some(j) => match strings_of_json(j) {
            Some(v) => v,
            None => Seq::<Seq<char>>::empty(),
        },
        None => Seq::<Seq<char>>::empty(),
    };
    if n.len() == 0 && t.len() == 0 {
        None
    } else {
        Some((n, t))
    }
}

/// The attributes that store an annotation: the notes, unless empty, and the
/// tags as JSON, unless there are none. Reading them back gives the same
/// notes and tags, or nothing for an empty annotation.
pub fn annotation_attributes(annotation: &RunAnnotation) -> (r: Option<(Option<String>, Option<String>)>)
    ensures
        r is Some,
        r matches Some((notes, tags)) ==> {
            &&& (annotation.notes@.len() == 0 <==> notes is None)
            &&& (notes matches Some(n) ==> n@ == annotation.notes@)
            &&& (annotation.tags@.len() == 0 <==> tags is None)
            &&& (tags matches Some(t) ==> t@ == json_of_strings(texts_of(annotation.tags@)))
            &&& decoded_annotation(opt_text(notes), opt_text(tags)) == if annotation.notes@.len() == 0
                && annotation.tags@.len() == 0 {
                None
            } else {
                Some((annotation.notes@, texts_of(annotation.tags@)))
            }
        },
{
    let notes = if annotation.notes.as_str().unicode_len() == 0 {
        None
    } else {
        Some(annotation.notes.clone())
    };
    let tags = if annotation.tags.len() == 0 {
        None
    } else {
        match encode_tags(&annotation.tags) {
            Some(t) => Some(t),
            None => {
                return None;
            },
        }
    };
    proof {
        if annotation.tags@.len() == 0 {
            assert(texts_of(annotation.tags@) =~= Seq::<Seq<char>>::empty());
        }
    }
    Some((notes, tags))
}

/// The annotation from stored notes and decoded tags: missing notes read as
/// empty, missing tags as none; no annotation when both are empty.
pub fn annotation_from_parts(notes: Option<String>, tags: Option<Vec<String>>) -> (r: Option<RunAnnotation>)
    ensures
        ({
            let n = match notes {
                Some(s) => s@,
                None => Seq::<char>::empty(),
            };
            let t = match tags {
                Some(v) => texts_of(v@),
                None => Seq::<Seq<char>>::empty(),
            };
            &&& (r is None <==> n.len() == 0 && t.len() == 0)
            &&& (r matches Some(a) ==> a.notes@ == n && texts_of(a.tags@) == t)
        }),
{
    let notes = match notes {
        Some(s) => s,
        None => String::new(),
    };
    let tags = match tags {
        Some(v) => v,
        None => Vec::new(),
    };
    proof {
        if tags@.len() == 0 {
            assert(texts_of(tags@) =~= Seq::<Seq<char>>::empty());
        }
    }
    if notes.as_str().unicode_len() == 0 && tags.len() == 0 {
        None
    } else {
        Some(RunAnnotation { notes, tags })
    }
}

/// The annotation read from stored attributes: missing notes read as empty,
/// missing or unreadable tags as none; no annotation when both are empty.
pub fn annotation_from_attributes(notes: Option<String>, tags_json: Option<String>) -> (r: Option<RunAnnotation>)
    ensures
        r is None <==> decoded_annotation(opt_text(notes), opt_text(tags_json)) is None,
        r matches Some(a) ==> decoded_annotation(opt_text(notes), opt_text(tags_json)) == Some(
            (a.notes@, texts_of(a.tags@)),
        ),
{
    let tags = match tags_json {
        Some(j) => decode_tags(j.as_str()),
        None => None,
    };
    annotation_from_parts(notes, tags)
}

} // verus!
