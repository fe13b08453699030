//! JSON and YAML texts.

use crate::text;
use vstd::prelude::*;
use vstd::string::*;

verus! {

/// Named lists of strings, without their representation.
pub open spec fn entries_of(v: Seq<(String, Vec<String>)>) -> Seq<(Seq<char>, Seq<Seq<char>>)> {
    Seq::new(v.len(), |i: int| (v[i].0@, text::texts(v[i].1@)))
}

/// The JSON object of named lists of strings, its keys in order; of entries
/// with one name the last counts.
pub uninterp spec fn lists_json(entries: Seq<(Seq<char>, Seq<Seq<char>>)>) -> Option<Seq<char>>;

/// `serde_json::to_string` on a map from names to lists of strings: the text
/// depends on the entries alone. Nothing is said of when it fails.
#[verifier::external_body]
pub(crate) fn write_lists(entries: &Vec<(String, Vec<String>)>) -> (r: Option<String>)
    ensures
        text::opt_text(r) == lists_json(entries_of(entries@)),
{
    let map: std::collections::BTreeMap<&str, &[String]> = entries.iter()
        .map(|e| (e.0.as_str(), e.1.as_slice()))
        .collect();
    serde_json::to_string(&map).ok()
}

/// A JSON text, or that of the empty object.
pub open spec fn or_empty_object(json: Option<Seq<char>>) -> Seq<char> {
    match json {
        Some(s) => s,
        None => "{}"@,
    }
}

/// Takes a JSON text where there is one, else that of the empty object.
pub fn object_or_empty(json: Option<String>) -> (r: String)
    ensures
        r@ == or_empty_object(text::opt_text(json)),
{
    match json {
        Some(s) => s,
        None => "{}".to_owned(),
    }
}

/// A value in a flat JSON object.
pub enum Field {
    Null,
    Text(String),
    Texts(Vec<String>),
}

/// A value without its representation.
pub enum FieldView {
    Null,
    Text(Seq<char>),
    Texts(Seq<Seq<char>>),
}

impl View for Field {
    type V = FieldView;

    open spec fn view(&self) -> FieldView {
        match self {
            Field::Null => FieldView::Null,
            Field::Text(s) => FieldView::Text(s@),
            Field::Texts(v) => FieldView::Texts(text::texts(v@)),
        }
    }
}

/// Named values without their representation.
pub open spec fn fields_of(v: Seq<(String, Field)>) -> Seq<(Seq<char>, FieldView)> {
    Seq::new(v.len(), |i: int| (v[i].0@, v[i].1@))
}

/// What stands under a name: of values with one name the last counts.
pub open spec fn value_of(fields: Seq<(Seq<char>, FieldView)>, name: Seq<char>) -> Option<FieldView>
    decreases fields.len(),
{
    if fields.len() == 0 {
        None
    } else if fields.last().0 == name {
        Some(fields.last().1)
    } else {
        value_of(fields.drop_last(), name)
    }
}

/// The JSON object of named values, indented, its keys in order; of values
/// with one name the last counts.
pub uninterp spec fn object_json(fields: Seq<(Seq<char>, FieldView)>) -> Option<Seq<char>>;

/// `serde_json::to_string_pretty` on a JSON object: the text depends on the
/// values alone. Nothing is said of when it fails.
#[verifier::external_body]
pub(crate) fn write_object(fields: &Vec<(String, Field)>) -> (r: Option<String>)
    ensures
        text::opt_text(r) == object_json(fields_of(fields@)),
{
    let map: serde_json::Map<String, serde_json::Value> = fields.iter()
        .map(|f| (f.0.clone(), match &f.1 {
            Field::Null => serde_json::Value::Null,
            Field::Text(s) => serde_json::Value::from(s.as_str()),
            Field::Texts(v) => serde_json::Value::from(v.clone()),
        }))
        .collect();
    serde_json::to_string_pretty(&serde_json::Value::Object(map)).ok()
}

/// The views of the result of a conversion in two steps, each of which can fail
/// with a message.
pub open spec fn steps_of(r: Result<Result<String, String>, String>) -> Result<
    Result<Seq<char>, Seq<char>>,
    Seq<char>,
> {
    match r {
        Ok(Ok(s)) => Ok(Ok(s@)),
        Ok(Err(e)) => Ok(Err(e@)),
        Err(e) => Err(e@),
    }
}

/// The JSON text of a YAML text. The outer error is that of reading, the inner
/// one that of writing.
pub uninterp spec fn json_of_yaml(yaml: Seq<char>) -> Result<Result<Seq<char>, Seq<char>>, Seq<char>>;

/// `serde_yaml::from_str` into a YAML value, and `serde_json::to_string` on that
/// value: the text, or the message of the step that failed, depends on the YAML
/// text alone. Nothing is said of which texts can be converted.
#[verifier::external_body]
pub(crate) fn convert_yaml(yaml: &str) -> (r: Result<Result<String, String>, String>)
    ensures
        steps_of(r) == json_of_yaml(yaml@),
{
    serde_yaml::from_str::<serde_yaml::Value>(yaml)
        .map(|value| serde_json::to_string(&value).map_err(|e| e.to_string()))
        .map_err(|e| e.to_string())
}

/// The YAML text of a JSON text. The outer error is that of reading, the inner
/// one that of writing.
pub uninterp spec fn yaml_of_json(json: Seq<char>) -> Result<Result<Seq<char>, Seq<char>>, Seq<char>>;

/// `serde_json::from_str` into a JSON value, `serde_json::from_value` from that
/// into a YAML value, and `serde_yaml::to_string` on the latter: the text, or
/// the message of the step that failed, depends on the JSON text alone. Nothing
/// is said of which texts can be converted.
#[verifier::external_body]
pub(crate) fn convert_json(json: &str) -> (r: Result<Result<String, String>, String>)
    ensures
        steps_of(r) == yaml_of_json(json@),
{
    serde_json::from_str::<serde_json::Value>(json)
        .and_then(serde_json::from_value::<serde_yaml::Value>)
        .map(|value| serde_yaml::to_string(&value).map_err(|e| e.to_string()))
        .map_err(|e| e.to_string())
}

/// What is seen of a value is what it holds, each part under its own name.
pub proof fn law_rows_seen(a: Field)
    ensures
        a is Null ==> a@ is Null,
        a matches Field::Text(s) ==> a@ == FieldView::Text(s@),
        a matches Field::Texts(v) ==> a@ == FieldView::Texts(text::texts(v@)),
{
}

/// One for each, in order: named lists of strings, without their representation.
pub proof fn law_entries_of(v: Seq<(String, Vec<String>)>, i: int)
    ensures
        entries_of(v).len() == v.len(),
        0 <= i < v.len() ==> entries_of(v)[i] == (v[i].0@, text::texts(v[i].1@)),
{
}

/// One for each, in order: named values without their representation.
pub proof fn law_fields_of(v: Seq<(String, Field)>, i: int)
    ensures
        fields_of(v).len() == v.len(),
        0 <= i < v.len() ==> fields_of(v)[i] == (v[i].0@, v[i].1@),
{
}

/// A text stands for itself, and the empty object for none.
pub proof fn law_or_empty_object(json: Option<Seq<char>>)
    ensures
        json matches Some(s) ==> or_empty_object(json) == s,
        json is None ==> or_empty_object(json) == "{}"@,
{
}

/// What each step of a conversion gave is kept apart.
pub proof fn law_steps_of(r: Result<Result<String, String>, String>)
    ensures
        r matches Ok(Ok(s)) ==> steps_of(r) == Ok::<Result<Seq<char>, Seq<char>>, Seq<char>>(Ok(s@)),
        r matches Ok(Err(e)) ==> steps_of(r) == Ok::<Result<Seq<char>, Seq<char>>, Seq<char>>(
            Err(e@),
        ),
        r matches Err(e) ==> steps_of(r) == Err::<Result<Seq<char>, Seq<char>>, Seq<char>>(e@),
{
}

} // verus!
