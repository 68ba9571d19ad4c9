use vstd::prelude::*;
use vstd::string::*;

use serde_json::Value as JsonValue;
use toml::Value as TomlValue;

use crate::record::FieldValue::{Null, Other, Text, Unsigned};

use crate::channel::is_json_text;
use crate::format::SourcesFormat;
use crate::record::{decode_all, decode_sources, entries, records_entries, same_text, DecodeError, Field, FieldValue};
use crate::source::Source;

verus! {

#[verifier::external_type_specification]
#[verifier::external_body]
pub struct ExTomlValue(toml::Value);

#[verifier::external_type_specification]
#[verifier::external_body]
pub struct ExTomlError(toml::de::Error);

/// Whether toml accepts `text` as a document.
pub uninterp spec fn is_toml_text(text: Seq<char>) -> bool;

/// Why a file's text is not a list of sources.
#[derive(Debug)]
pub enum SourcesError {
    /// The text is not JSON.
    Json(serde_json::Error),
    /// The text is not TOML.
    Toml(toml::de::Error),
    /// The TOML document has no `sources` field, or it is not an array.
    MissingList,
    /// The JSON text is not an array.
    NotAList,
    /// An item of the list is not a record of fields.
    NotARecord,
    /// A record is not a source.
    Decode(DecodeError),
}

/// A list as the parsers give it: each item a record, or `None` where the
/// item is not a table of fields.
pub open spec fn list_view(l: Option<Vec<Option<Vec<Field>>>>) -> Option<Seq<Option<Seq<(Seq<char>, FieldValue)>>>> {
    match l {
        Some(items) => Some(items@.map_values(|o: Option<Vec<Field>>| record_view(o))),
        None => None,
    }
}

/// An item of a list as keys and values.
pub open spec fn record_view(o: Option<Vec<Field>>) -> Option<Seq<(Seq<char>, FieldValue)>> {
    match o {
        Some(fields) => Some(entries(fields@)),
        None => None,
    }
}

/// The top-level entries of a TOML document, each with its value as a list
/// where it is one.
pub open spec fn top_view(t: Vec<(String, Option<Vec<Option<Vec<Field>>>>)>)
    -> Seq<(Seq<char>, Option<Seq<Option<Seq<(Seq<char>, FieldValue)>>>>)> {
    t@.map_values(|e: (String, Option<Vec<Option<Vec<Field>>>>)| (e.0@, list_view(e.1)))
}

/// The list that a JSON text holds at its top: each item's fields, with
/// strings, numbers that fit a `u64` and nulls as such and any other value
/// as `Other`; `None` where the top is not an array, and an item `None`
/// where it is not an object.
pub uninterp spec fn json_list_of(text: Seq<char>) -> Option<Seq<Option<Seq<(Seq<char>, FieldValue)>>>>;

/// The top-level entries of a TOML text, each value read as a list of
/// tables in the same way (strings and non-negative integers as such, any
/// other value as `Other`).
pub uninterp spec fn toml_top_of(text: Seq<char>) -> Seq<(Seq<char>, Option<Seq<Option<Seq<(Seq<char>, FieldValue)>>>>)>;

/// Relies on serde_json::from_str, serde_json::Value::as_array,
/// serde_json::Value::as_object and serde_json::Number::as_u64: the array at
/// the top of a JSON text and the members of its objects, in the map's order,
/// each value by its kind, which depend on the text alone.
#[verifier::external_body]
fn json_list(text: &str) -> (r: Result<Option<Vec<Option<Vec<Field>>>>, serde_json::Error>)
    ensures
        r is Ok == is_json_text(text@),
        r matches Ok(l) ==> list_view(l) == json_list_of(text@),
{
    let doc: JsonValue = serde_json::from_str(text)?;
    let leaf = |x: &JsonValue| match x {
        JsonValue::String(s) => Text(s.clone()),
        JsonValue::Number(n) => n.as_u64().map_or(Other, Unsigned),
        JsonValue::Null => Null,
        _ => Other,
    };
    Ok(doc.as_array().map(|items| {
        items.iter().map(|i| i.as_object().map(|m| m.iter().map(|(k, x)| Field { key: k.clone(), value: leaf(x) }).collect())).collect()
    }))
}

/// Relies on toml::from_str, toml::Value::as_table and toml::Value::as_array:
/// the top-level entries of a TOML text, each value read as an array of
/// tables, in the map's order, each value of those by its kind (an integer
/// that `u64::try_from` takes as unsigned), which depend on the text alone. The parser
/// stops nesting past a fixed depth with an error, so no text exhausts the
/// stack.
#[verifier::external_body]
fn toml_top(text: &str) -> (r: Result<Vec<(String, Option<Vec<Option<Vec<Field>>>>)>, toml::de::Error>)
    ensures
        r is Ok == is_toml_text(text@),
        r matches Ok(t) ==> top_view(t) == toml_top_of(text@),
{
    let doc: TomlValue = toml::from_str(text)?;
    let leaf = |x: &TomlValue| match x {
        TomlValue::String(s) => Text(s.clone()),
        TomlValue::Integer(i) => u64::try_from(*i).map_or(Other, Unsigned),
        _ => Other,
    };
    Ok(doc.as_table().map_or_else(Vec::new, |t| {
        t.iter().map(|(k, v)| {
            (k.clone(), v.as_array().map(|items| {
                items.iter().map(|i| i.as_table().map(|m| m.iter().map(|(k, x)| Field { key: k.clone(), value: leaf(x) }).collect())).collect()
            }))
        }).collect()
    }))
}

/// The records of a list whose every item is a record.
pub open spec fn records_of_list(l: Option<Seq<Option<Seq<(Seq<char>, FieldValue)>>>>) -> Option<Seq<Seq<(Seq<char>, FieldValue)>>> {
    match l {
        None => None,
        Some(items) => if forall|i: int| 0 <= i < items.len() ==> (#[trigger] items[i]) is Some {
            Some(items.map_values(|o: Option<Seq<(Seq<char>, FieldValue)>>| o->Some_0))
        } else {
            None
        },
    }
}

/// The list under the first top-level entry named `key`.
pub open spec fn list_under(top: Seq<(Seq<char>, Option<Seq<Option<Seq<(Seq<char>, FieldValue)>>>>)>, key: Seq<char>)
    -> Option<Seq<Option<Seq<(Seq<char>, FieldValue)>>>>
    decreases top.len(),
{
    if top.len() == 0 {
        None
    } else if top[0].0 == key {
        top[0].1
    } else {
        list_under(top.drop_first(), key)
    }
}

/// The records of a list, when every item is one.
fn records_from(l: Option<Vec<Option<Vec<Field>>>>) -> (r: Option<Vec<Vec<Field>>>)
    ensures
        match r {
            Some(v) => records_of_list(list_view(l)) == Some(records_entries(v@)),
            None => records_of_list(list_view(l)) is None,
        },
{
    if l.is_none() {
        return None;
    }
    let mut items = l.unwrap();
    let ghost orig = items@;
    let ghost view = list_view(l)->Some_0;
    let n = items.len();
    let mut out: Vec<Vec<Field>> = Vec::new();
    let mut k: usize = 0;
    while k < n
        invariant
            n == orig.len(),
            k <= n,
            view == orig.map_values(|o: Option<Vec<Field>>| record_view(o)),
            list_view(l) == Some(view),
            items@ == orig.subrange(k as int, n as int),
            out@.len() == k,
            forall|j: int| 0 <= j < k ==> (#[trigger] orig[j]) == Some(out@[j]),
        decreases n - k,
    {
        assert(items@[0] == orig[k as int]);
        match items.remove(0) {
            None => {
                assert(view[k as int] is None);
                assert(list_view(l) == Some(view));
                assert(!(view[k as int] is Some));
                return None;
            },
            Some(fields) => {
                out.push(fields);
            },
        }
        k = k + 1;
    }
    assert(forall|j: int| 0 <= j < n ==> (#[trigger] view[j]) is Some);
    assert(records_of_list(list_view(l))->Some_0 =~= records_entries(out@));
    Some(out)
}

/// Takes the list under the first top-level entry named `key`.
fn take_list(top: Vec<(String, Option<Vec<Option<Vec<Field>>>>)>, key: &str) -> (r: Option<Vec<Option<Vec<Field>>>>)
    ensures
        list_view(r) == list_under(top_view(top), key@),
{
    let ghost tv = top_view(top);
    let mut t = top;
    let n = t.len();
    let mut k: usize = 0;
    assert(tv.subrange(0, n as int) =~= tv);
    while k < n
        invariant
            n == t@.len(),
            k <= n,
            tv == top_view(t),
            tv == top_view(top),
            list_under(tv, key@) == list_under(tv.subrange(k as int, n as int), key@),
        decreases n - k,
    {
        let ghost rest = tv.subrange(k as int, n as int);
        assert(rest.drop_first() =~= tv.subrange(k + 1, n as int));
        assert(rest[0] == tv[k as int]);
        assert(tv[k as int] == (t@[k as int].0@, list_view(t@[k as int].1)));
        if same_text(t[k].0.as_str(), key) {
            let ghost entry = t@[k as int];
            assert(list_under(rest, key@) == rest[0].1);
            let (_, list) = t.remove(k);
            assert(list == entry.1);
            return list;
        }
        k = k + 1;
    }
    None
}

/// The format a file with this extension is read in.
pub open spec fn format_of(extension: Option<&str>) -> SourcesFormat {
    if extension matches Some(e) && e@ == "toml"@ {
        SourcesFormat::Toml
    } else {
        SourcesFormat::Json
    }
}

/// What reading the list `l` gives: where there is no list, `MissingList`
/// for TOML and `NotAList` for JSON; where an item is not a record,
/// `NotARecord`; else the decoding of the records, in order.
pub open spec fn reads_list(
    r: Result<Vec<Source>, SourcesError>,
    l: Option<Seq<Option<Seq<(Seq<char>, FieldValue)>>>>,
    toml: bool,
) -> bool {
    match l {
        None => if toml {
            r matches Err(SourcesError::MissingList)
        } else {
            r matches Err(SourcesError::NotAList)
        },
        Some(_) => match records_of_list(l) {
            None => r matches Err(SourcesError::NotARecord),
            Some(rs) => match decode_all(rs) {
                Ok(s) => r matches Ok(v) && v@ == s,
                Err(e) => r matches Err(SourcesError::Decode(d)) && d == e,
            },
        },
    }
}

/// Reads a list of sources from the text of a file with the given extension:
/// for `toml`, the array of tables under the document's `sources` field; for
/// any other extension, a bare JSON array of objects. Text the chosen format
/// does not accept fails with that format's error; a document without such a
/// list, or with an item that is not a table of fields, fails; otherwise the
/// records are decoded in order.
pub fn parse_sources(extension: Option<&str>, text: &str) -> (r: Result<Vec<Source>, SourcesError>)
    ensures
        format_of(extension) == SourcesFormat::Toml && !is_toml_text(text@) ==> (r matches Err(SourcesError::Toml(_))),
        format_of(extension) == SourcesFormat::Toml && is_toml_text(text@)
            ==> reads_list(r, list_under(toml_top_of(text@), "sources"@), true),
        format_of(extension) == SourcesFormat::Json && !is_json_text(text@) ==> (r matches Err(SourcesError::Json(_))),
        format_of(extension) == SourcesFormat::Json && is_json_text(text@)
            ==> reads_list(r, json_list_of(text@), false),
{
    let format = SourcesFormat::for_extension(extension);
    let list = match format.wrapper_field() {
        Some(wrapper) => match toml_top(text) {
            Err(e) => return Err(SourcesError::Toml(e)),
            Ok(top) => match take_list(top, wrapper) {
                None => return Err(SourcesError::MissingList),
                Some(list) => list,
            },
        },
        None => match json_list(text) {
            Err(e) => return Err(SourcesError::Json(e)),
            Ok(None) => return Err(SourcesError::NotAList),
            Ok(Some(list)) => list,
        },
    };
    match records_from(Some(list)) {
        None => Err(SourcesError::NotARecord),
        Some(records) => match decode_sources(&records) {
            Err(e) => Err(SourcesError::Decode(e)),
            Ok(v) => Ok(v),
        },
    }
}

} // verus!
