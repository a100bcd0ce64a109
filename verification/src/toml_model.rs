//! A plain-value model of a TOML document and the lookups that the
//! configuration loaders perform on it.

use vstd::prelude::*;

use crate::text;

verus! {

broadcast use vstd::std_specs::vec::group_vec_axioms;

/// A TOML value as the configuration loaders see it. Floats and datetimes
/// are recorded by their kind only: no loader reads their contents.
pub enum TomlValue {
    String(String),
    Integer(i64),
    Float,
    Boolean(bool),
    Datetime,
    Array(Vec<TomlValue>),
    Table(Vec<(String, TomlValue)>),
}

/// The mathematical content of a [`TomlValue`].
pub enum TomlData {
    String(Seq<char>),
    Integer(i64),
    Float,
    Boolean(bool),
    Datetime,
    Array(Seq<TomlData>),
    Table(Seq<(Seq<char>, TomlData)>),
}

/// The mathematical content of a value: strings by their characters,
/// arrays and tables element by element.
pub open spec fn toml_data(v: TomlValue) -> TomlData
    decreases v,
{
    match v {
        TomlValue::String(s) => TomlData::String(s@),
        TomlValue::Integer(i) => TomlData::Integer(i),
        TomlValue::Float => TomlData::Float,
        TomlValue::Boolean(b) => TomlData::Boolean(b),
        TomlValue::Datetime => TomlData::Datetime,
        TomlValue::Array(items) => TomlData::Array(
            Seq::new(
                items.len() as nat,
                |i: int| if 0 <= i < items.len() { toml_data(items[i]) } else { TomlData::Float },
            ),
        ),
        TomlValue::Table(entries) => TomlData::Table(
            Seq::new(
                entries.len() as nat,
                |i: int|
                    if 0 <= i < entries.len() {
                        (entries[i].0@, toml_data(entries[i].1))
                    } else {
                        (Seq::empty(), TomlData::Float)
                    },
            ),
        ),
    }
}

/// The value stored under `key` among `entries`: the first entry with that
/// key (a parsed table holds each key once).
pub open spec fn entry_value(entries: Seq<(Seq<char>, TomlData)>, key: Seq<char>) -> Option<
    TomlData,
>
    decreases entries.len(),
{
    if entries.len() == 0 {
        None
    } else if entries[0].0 == key {
        Some(entries[0].1)
    } else {
        entry_value(entries.drop_first(), key)
    }
}

/// The value under `key` when `v` is a table (`toml::Value::get`).
pub open spec fn value_at(v: TomlData, key: Seq<char>) -> Option<TomlData> {
    match v {
        TomlData::Table(entries) => entry_value(entries, key),
        _ => None,
    }
}

/// What the `toml` crate makes of the text of a document: the value it
/// holds, or the message of the error that the parser reports.
pub uninterp spec fn parsed_toml(text: Seq<char>) -> Result<TomlData, Seq<char>>;

#[verifier::external_type_specification]
#[verifier::external_body]
pub struct ExTomlValue(toml::Value);

/// The plain-value model of a value that the `toml` crate built: each
/// variant mapped to the variant of the same name, arrays and tables
/// element by element, in the crate's order.
#[verifier::external_body]
fn model_of(v: &toml::Value) -> TomlValue {
    match v {
        toml::Value::String(s) => TomlValue::String(s.clone()),
        toml::Value::Integer(i) => TomlValue::Integer(*i),
        toml::Value::Float(_) => TomlValue::Float,
        toml::Value::Boolean(b) => TomlValue::Boolean(*b),
        toml::Value::Datetime(_) => TomlValue::Datetime,
        toml::Value::Array(a) => TomlValue::Array(a.iter().map(model_of).collect()),
        toml::Value::Table(t) => TomlValue::Table(
            t.iter().map(|(k, x)| (k.clone(), model_of(x))).collect(),
        ),
    }
}

/// Parses a TOML document with `toml::from_str::<toml::Value>`. Its
/// contract claims only that the outcome is the one [`parsed_toml`] names
/// for the text: the value, or the parser's error message
/// (`toml::de::Error::message`).
#[verifier::external_body]
pub(crate) fn parse_toml(text: &str) -> (r: Result<TomlValue, String>)
    ensures
        match r {
            Ok(v) => parsed_toml(text@) == Ok::<TomlData, Seq<char>>(toml_data(v)),
            Err(m) => parsed_toml(text@) == Err::<TomlData, Seq<char>>(m@),
        },
{
    match toml::from_str::<toml::Value>(text) {
        Ok(v) => Ok(model_of(&v)),
        Err(e) => Err(e.message().to_string()),
    }
}

/// The entries of a table, as [`TomlValue::Table`] holds them.
pub type TomlTable = Vec<(String, TomlValue)>;

/// The content of the entries of a table.
pub open spec fn table_data(t: TomlTable) -> Seq<(Seq<char>, TomlData)> {
    Seq::new(
        t.len() as nat,
        |i: int|
            if 0 <= i < t.len() {
                (t[i].0@, toml_data(t[i].1))
            } else {
                (Seq::empty(), TomlData::Float)
            },
    )
}

/// The content of the elements of an array.
pub open spec fn array_data(a: Vec<TomlValue>) -> Seq<TomlData> {
    Seq::new(
        a.len() as nat,
        |i: int|
            if 0 <= i < a.len() {
                toml_data(a[i])
            } else {
                TomlData::Float
            },
    )
}

/// The content of a table or an array is that of its entries or elements.
pub proof fn lemma_composite_data(v: TomlValue)
    ensures
        v matches TomlValue::Table(t) ==> toml_data(v) == TomlData::Table(table_data(t)),
        v matches TomlValue::Array(a) ==> toml_data(v) == TomlData::Array(array_data(a)),
{
    match v {
        TomlValue::Table(t) => {
            if let TomlData::Table(es) = toml_data(v) {
                assert(es =~= table_data(t));
            }
        },
        TomlValue::Array(a) => {
            if let TomlData::Array(items) = toml_data(v) {
                assert(items =~= array_data(a));
            }
        },
        _ => {},
    }
}

/// The value under `key` in the table `entries`.
pub fn table_get<'a>(entries: &'a TomlTable, key: &str) -> (r: Option<&'a TomlValue>)
    ensures
        match r {
            Some(x) => entry_value(table_data(*entries), key@) == Some(toml_data(*x)),
            None => entry_value(table_data(*entries), key@) is None,
        },
{
    let ghost es = table_data(*entries);
    assert(es.skip(0) =~= es);
    let mut i: usize = 0;
    while i < entries.len()
        invariant
            i <= entries.len(),
            es == table_data(*entries),
            entry_value(es, key@) == entry_value(es.skip(i as int), key@),
        decreases entries.len() - i,
    {
        let ghost rest = es.skip(i as int);
        assert(rest[0] == es[i as int]);
        if text::same_text(entries[i].0.as_str(), key) {
            assert(rest.len() > 0 && rest[0].0 == key@);
            return Some(&entries[i].1);
        }
        assert(rest.drop_first() =~= es.skip(i + 1));
        i = i + 1;
    }
    None
}

/// The value under `key` when `v` is a table (`toml::Value::get`).
pub fn get<'a>(v: &'a TomlValue, key: &str) -> (r: Option<&'a TomlValue>)
    ensures
        match r {
            Some(x) => value_at(toml_data(*v), key@) == Some(toml_data(*x)),
            None => value_at(toml_data(*v), key@) is None,
        },
{
    proof {
        lemma_composite_data(*v);
    }
    match v {
        TomlValue::Table(entries) => table_get(entries, key),
        _ => None,
    }
}

} // verus!
