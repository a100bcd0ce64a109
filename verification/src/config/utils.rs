//! Lookups of tables and keys in a parsed configuration, and the checks and
//! conversions applied to the values read.

use vstd::prelude::*;

use crate::config::errors::{ConfigError, ConfigurationError, ErrorType};
use crate::text;
use crate::toml_model::{
    array_data, entry_value, lemma_composite_data, table_data, table_get, toml_data, value_at,
    TomlData, TomlTable, TomlValue,
};

verus! {

/// A `u64` that is not zero (what `std::num::NonZeroU64` holds).
#[derive(Debug, Clone, Copy)]
pub struct PositiveU64 {
    value: u64,
}

impl View for PositiveU64 {
    type V = u64;

    closed spec fn view(&self) -> u64 {
        self.value
    }
}

impl PositiveU64 {
    #[verifier::type_invariant]
    spec fn is_positive(self) -> bool {
        self.value != 0
    }

    /// The number held, which is never zero.
    pub fn get(&self) -> (r: u64)
        ensures
            r == self@,
            r != 0,
    {
        proof {
            use_type_invariant(self);
        }
        self.value
    }

    /// `value`, if it is not zero.
    pub fn new(value: u64) -> (r: Option<PositiveU64>)
        ensures
            r is Some <==> value != 0,
            r matches Some(p) ==> p@ == value,
    {
        if value != 0 {
            Some(PositiveU64 { value })
        } else {
            None
        }
    }
}

/// A result whose error is taken by its content.
pub open spec fn with_error_view<T>(r: Result<T, ConfigurationError>) -> Result<T, ConfigError> {
    match r {
        Ok(v) => Ok(v),
        Err(e) => Err(e@),
    }
}

/// The entries of the table `name` of the document `root`. A missing table
/// is reported by its name; a value that is not a table is reported as the
/// table `kafka`, whichever was asked for.
pub open spec fn table_of(root: TomlData, name: Seq<char>) -> Result<
    Seq<(Seq<char>, TomlData)>,
    ConfigError,
> {
    match value_at(root, name) {
        Some(TomlData::Table(entries)) => Ok(entries),
        Some(_) => Err(ConfigError::TableNotFound("kafka"@)),
        None => Err(ConfigError::TableNotFound(name)),
    }
}

/// The integer under `key` in a table named `table`.
pub open spec fn integer_of(table: Seq<char>, key: Seq<char>, data: Seq<(Seq<char>, TomlData)>) -> Result<
    i64,
    ConfigError,
> {
    match entry_value(data, key) {
        Some(TomlData::Integer(i)) => Ok(i),
        _ => Err(ConfigError::KeyNotFound(table, key)),
    }
}

/// The string under `key` in a table named `table`.
pub open spec fn string_of(table: Seq<char>, key: Seq<char>, data: Seq<(Seq<char>, TomlData)>) -> Result<
    Seq<char>,
    ConfigError,
> {
    match entry_value(data, key) {
        Some(TomlData::String(s)) => Ok(s),
        _ => Err(ConfigError::KeyNotFound(table, key)),
    }
}

/// The string under `key` in a table named `table`, or nothing when the
/// table has no such key.
pub open spec fn optional_string_of(table: Seq<char>, key: Seq<char>, data: Seq<(Seq<char>, TomlData)>) -> Result<
    Option<Seq<char>>,
    ConfigError,
> {
    match entry_value(data, key) {
        None => Ok(None),
        Some(TomlData::String(s)) => Ok(Some(s)),
        Some(_) => Err(ConfigError::KeyNotFound(table, key)),
    }
}

/// The array under `key` in a table named `table`.
pub open spec fn array_of(table: Seq<char>, key: Seq<char>, data: Seq<(Seq<char>, TomlData)>) -> Result<
    Seq<TomlData>,
    ConfigError,
> {
    match entry_value(data, key) {
        Some(TomlData::Array(items)) => Ok(items),
        _ => Err(ConfigError::KeyNotFound(table, key)),
    }
}

/// The text of a string value; the empty text for any other value.
pub open spec fn text_or_empty(v: TomlData) -> Seq<char> {
    match v {
        TomlData::String(s) => s,
        _ => Seq::empty(),
    }
}

/// The texts of the elements of an array, the empty text for non-strings.
pub open spec fn texts_of(values: Seq<TomlData>) -> Seq<Seq<char>> {
    values.map_values(|v: TomlData| text_or_empty(v))
}

/// Whether a list of texts is empty or holds an empty text.
pub open spec fn empty_or_has_empty(v: Seq<Seq<char>>) -> bool {
    v.len() == 0 || v.contains(Seq::<char>::empty())
}

/// The contents of the strings of a vector.
pub open spec fn string_views(v: Seq<String>) -> Seq<Seq<char>> {
    v.map_values(|s: String| s@)
}

/// What `std` reports when a negative `i64` is converted to `u64`
/// (the `to_string` of the `TryFromIntError`).
pub uninterp spec fn u64_from_i64_error(value: i64) -> Seq<char>;

/// What `std` reports when zero is converted to `NonZeroU64`
/// (the `to_string` of the `TryFromIntError`).
pub uninterp spec fn nonzero_from_u64_error(value: u64) -> Seq<char>;

/// `u64::try_from(value)`, its error given as its text. The contract states
/// what `std` documents (the conversion fails exactly on negative values)
/// and names the error's text.
#[verifier::external_body]
fn u64_try_from_i64(value: i64) -> (r: Result<u64, String>)
    ensures
        r is Ok <==> value >= 0,
        r matches Ok(u) ==> u == value,
        r matches Err(m) ==> m@ == u64_from_i64_error(value),
{
    u64::try_from(value).map_err(|e| e.to_string())
}

/// `NonZeroU64::try_from(value)`, the number it holds or its error's text.
/// The contract states what `std` documents (it fails exactly on zero) and
/// names the error's text.
#[verifier::external_body]
fn nonzero_u64_try_from(value: u64) -> (r: Result<u64, String>)
    ensures
        r is Ok <==> value != 0,
        r matches Ok(u) ==> u == value,
        r matches Err(m) ==> m@ == nonzero_from_u64_error(value),
{
    std::num::NonZeroU64::try_from(value).map(|n| n.get()).map_err(|e| e.to_string())
}

/// Whether `to_check` is empty or holds an empty string.
pub fn vec_empty_or_has_empty_strings(to_check: &[String]) -> (r: bool)
    ensures
        r == empty_or_has_empty(string_views(to_check@)),
{
    let ghost views = string_views(to_check@);
    if to_check.len() == 0 {
        return true;
    }
    for i in 0..to_check.len()
        invariant
            views == string_views(to_check@),
            forall|k: int| 0 <= k < i ==> views[k] != Seq::<char>::empty(),
    {
        if to_check[i].as_str().is_empty() {
            assert(views[i as int] == Seq::<char>::empty());
            return true;
        }
    }
    assert(!views.contains(Seq::<char>::empty()));
    false
}

/// Checks that the value of the key `key_name` is not an empty list and
/// holds no empty string.
pub fn check_value_not_empty_or_has_empty_strings(value: &[String], key_name: &str) -> (r: Result<
    (),
    ConfigurationError,
>)
    ensures
        r is Err <==> empty_or_has_empty(string_views(value@)),
        r matches Err(e) ==> e@ == ConfigError::InvalidValue(key_name@, Seq::empty()),
{
    if vec_empty_or_has_empty_strings(value) {
        return Err(
            ConfigurationError::new(String::new(), ErrorType::InvalidValueForKey(text::owned(key_name))),
        );
    }
    Ok(())
}

/// The table `table_name` of a configuration document, if it holds one.
pub fn get_table<'a>(table_name: &str, config: &'a TomlValue) -> (r: Result<
    &'a TomlTable,
    ConfigurationError,
>)
    ensures
        match r {
            Ok(t) => table_of(toml_data(*config), table_name@) == Ok::<
                Seq<(Seq<char>, TomlData)>,
                ConfigError,
            >(table_data(*t)),
            Err(e) => table_of(toml_data(*config), table_name@) == Err::<
                Seq<(Seq<char>, TomlData)>,
                ConfigError,
            >(e@),
        },
{
    match crate::toml_model::get(config, table_name) {
        Some(v) => {
            proof {
                lemma_composite_data(*v);
            }
            match v {
                TomlValue::Table(t) => Ok(t),
                _ => Err(ConfigurationError::new(text::owned("kafka"), ErrorType::TableNotFound)),
            }
        },
        None => Err(ConfigurationError::new(text::owned(table_name), ErrorType::TableNotFound)),
    }
}

/// Reads the integer key `key_name` of the table `table_name`.
pub fn read_integer_key_from_table(table_name: &str, key_name: &str, data: &TomlTable) -> (r:
    Result<i64, ConfigurationError>)
    ensures
        with_error_view(r) == integer_of(table_name@, key_name@, table_data(*data)),
{
    match table_get(data, key_name) {
        Some(TomlValue::Integer(i)) => Ok(*i),
        _ => Err(ConfigurationError::new_key_not_found_err(text::owned(key_name), text::owned(table_name))),
    }
}

/// Reads the string key `key_name` of the table `table_name`.
pub fn read_string_key_from_table(table_name: &str, key_name: &str, data: &TomlTable) -> (r:
    Result<String, ConfigurationError>)
    ensures
        match r {
            Ok(s) => string_of(table_name@, key_name@, table_data(*data)) == Ok::<Seq<char>, ConfigError>(s@),
            Err(e) => string_of(table_name@, key_name@, table_data(*data)) == Err::<Seq<char>, ConfigError>(e@),
        },
{
    match table_get(data, key_name) {
        Some(TomlValue::String(s)) => Ok(s.clone()),
        _ => Err(ConfigurationError::new_key_not_found_err(text::owned(key_name), text::owned(table_name))),
    }
}

/// Reads the string key `key_name` of the table `table_name`, which may be
/// left out.
pub fn read_optional_string_key_from_table(table_name: &str, key_name: &str, data: &TomlTable) -> (r:
    Result<Option<String>, ConfigurationError>)
    ensures
        match r {
            Ok(Some(s)) => optional_string_of(table_name@, key_name@, table_data(*data)) == Ok::<
                Option<Seq<char>>,
                ConfigError,
            >(Some(s@)),
            Ok(None) => optional_string_of(table_name@, key_name@, table_data(*data)) == Ok::<
                Option<Seq<char>>,
                ConfigError,
            >(None),
            Err(e) => optional_string_of(table_name@, key_name@, table_data(*data)) == Err::<
                Option<Seq<char>>,
                ConfigError,
            >(e@),
        },
{
    match table_get(data, key_name) {
        None => Ok(None),
        Some(TomlValue::String(s)) => Ok(Some(s.clone())),
        Some(_) => Err(ConfigurationError::new_key_not_found_err(text::owned(key_name), text::owned(table_name))),
    }
}

/// Reads the array key `key_name` of the table `table_name`.
pub fn read_array_key_from_table<'a>(table_name: &str, key_name: &str, table_data_: &'a TomlTable) -> (r:
    Result<&'a Vec<TomlValue>, ConfigurationError>)
    ensures
        match r {
            Ok(a) => array_of(table_name@, key_name@, table_data(*table_data_)) == Ok::<Seq<TomlData>, ConfigError>(array_data(*a)),
            Err(e) => array_of(table_name@, key_name@, table_data(*table_data_)) == Err::<Seq<TomlData>, ConfigError>(e@),
        },
{
    match table_get(table_data_, key_name) {
        Some(v) => {
            proof {
                lemma_composite_data(*v);
            }
            match v {
                TomlValue::Array(a) => Ok(a),
                _ => Err(ConfigurationError::new_key_not_found_err(text::owned(key_name), text::owned(table_name))),
            }
        },
        None => Err(ConfigurationError::new_key_not_found_err(text::owned(key_name), text::owned(table_name))),
    }
}

/// Converts an `i64` to a `u64`; a negative value is an error.
pub fn from_i64_to_u64(value: i64) -> (r: Result<u64, ConfigurationError>)
    ensures
        r is Ok <==> value >= 0,
        r matches Ok(u) ==> u == value,
        r matches Err(e) ==> e@ == ConfigError::Error(u64_from_i64_error(value)),
{
    match u64_try_from_i64(value) {
        Ok(u) => Ok(u),
        Err(m) => Err(ConfigurationError::Error(m)),
    }
}

/// Converts a `u64` to a [`PositiveU64`]; zero is an error.
pub fn from_u64_to_nonzerou64(value: u64) -> (r: Result<PositiveU64, ConfigurationError>)
    ensures
        r is Ok <==> value != 0,
        r matches Ok(p) ==> p@ == value,
        r matches Err(e) ==> e@ == ConfigError::Error(nonzero_from_u64_error(value)),
{
    match nonzero_u64_try_from(value) {
        Ok(u) => {
            match PositiveU64::new(u) {
                Some(p) => Ok(p),
                None => Err(ConfigurationError::Error(String::new())),
            }
        },
        Err(m) => Err(ConfigurationError::Error(m)),
    }
}

/// The texts of the elements of an array: a string's text, or the empty
/// string for any other element.
pub fn from_vec_of_value_to_vec_of_string(vec_of_value: &Vec<TomlValue>) -> (r: Vec<String>)
    ensures
        string_views(r@) == texts_of(array_data(*vec_of_value)),
{
    let ghost data = array_data(*vec_of_value);
    let mut r: Vec<String> = Vec::new();
    for i in 0..vec_of_value.len()
        invariant
            data == array_data(*vec_of_value),
            string_views(r@) == texts_of(data.take(i as int)),
    {
        assert(data[i as int] == toml_data(vec_of_value[i as int]));
        let s = match &vec_of_value[i] {
            TomlValue::String(s) => s.clone(),
            _ => String::new(),
        };
        assert(s@ == text_or_empty(data[i as int]));
        let ghost before = r@;
        r.push(s);
        assert(string_views(r@) =~= string_views(before).push(s@));
        assert(texts_of(data.take(i + 1)) =~= texts_of(data.take(i as int)).push(
            text_or_empty(data[i as int]),
        ));
    }
    assert(data.take(vec_of_value.len() as int) =~= data);
    r
}

/// The host list under `key` in a table named `table`: an array whose
/// elements are taken by their text, which must be non-empty and hold no
/// empty text.
pub open spec fn hosts_of(table: Seq<char>, key: Seq<char>, data: Seq<(Seq<char>, TomlData)>) -> Result<
    Seq<Seq<char>>,
    ConfigError,
> {
    match array_of(table, key, data) {
        Err(e) => Err(e),
        Ok(items) => if empty_or_has_empty(texts_of(items)) {
            Err(ConfigError::InvalidValue(key, Seq::empty()))
        } else {
            Ok(texts_of(items))
        },
    }
}

/// Reads an array of hosts under `key_name` in the table `table_name`, and
/// checks that it is not empty and holds no empty string.
pub fn read_array_of_hosts(table_name: &str, key_name: &str, data: &TomlTable) -> (r: Result<
    Vec<String>,
    ConfigurationError,
>)
    ensures
        match r {
            Ok(v) => hosts_of(table_name@, key_name@, table_data(*data)) == Ok::<
                Seq<Seq<char>>,
                ConfigError,
            >(string_views(v@)),
            Err(e) => hosts_of(table_name@, key_name@, table_data(*data)) == Err::<
                Seq<Seq<char>>,
                ConfigError,
            >(e@),
        },
{
    let values = read_array_key_from_table(table_name, key_name, data)?;
    let hosts = from_vec_of_value_to_vec_of_string(values);
    check_value_not_empty_or_has_empty_strings(hosts.as_slice(), key_name)?;
    Ok(hosts)
}

/// The entries of the table `name` of the document `root`, when it holds
/// a table there.
pub open spec fn table_at(root: TomlData, name: Seq<char>) -> Option<Seq<(Seq<char>, TomlData)>> {
    match value_at(root, name) {
        Some(TomlData::Table(t)) => Some(t),
        _ => None,
    }
}

/// Whether the table `t` holds the string `s` under `key`.
pub open spec fn holds_string(t: Seq<(Seq<char>, TomlData)>, key: Seq<char>, s: Seq<char>) -> bool {
    entry_value(t, key) == Some(TomlData::String(s))
}

/// Whether the table `t` holds the integer `i` under `key`.
pub open spec fn holds_integer(t: Seq<(Seq<char>, TomlData)>, key: Seq<char>, i: int) -> bool {
    match entry_value(t, key) {
        Some(TomlData::Integer(v)) => v == i,
        _ => false,
    }
}

/// Whether the table `t` holds under `key` an array of exactly the strings
/// `texts`: as many elements, each the string at its position.
pub open spec fn holds_strings(t: Seq<(Seq<char>, TomlData)>, key: Seq<char>, texts: Seq<Seq<char>>) -> bool {
    match entry_value(t, key) {
        Some(TomlData::Array(items)) => {
            &&& items.len() == texts.len()
            &&& forall|i: int| 0 <= i < items.len() ==> #[trigger] items[i] == TomlData::String(texts[i])
        },
        _ => false,
    }
}

/// A host list read from a table is the array of strings the table holds
/// under its key, all of it and in order.
pub proof fn lemma_hosts_are_the_array(table: Seq<char>, key: Seq<char>, data: Seq<(Seq<char>, TomlData)>)
    ensures
        hosts_of(table, key, data) matches Ok(h) ==> holds_strings(data, key, h),
{
    if let Ok(h) = hosts_of(table, key, data) {
        if let Some(TomlData::Array(items)) = entry_value(data, key) {
            assert(h == texts_of(items));
            assert forall|i: int| 0 <= i < items.len() implies #[trigger] items[i] == TomlData::String(
                h[i],
            ) by {
                assert(h[i] == text_or_empty(items[i]));
                if !(items[i] is String) {
                    assert(h[i] == Seq::<char>::empty());
                    assert(h.contains(Seq::<char>::empty()));
                }
            }
        }
    }
}

} // verus!
