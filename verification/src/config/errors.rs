//! Errors that may occur while loading a configuration file.

use vstd::prelude::*;

use crate::text;

verus! {

/// The kind of a [`ConfigurationError`] to build with [`ConfigurationError::new`].
#[derive(Debug, Clone)]
pub enum ErrorType {
    TableNotFound,
    /// `KeyNotFoundForTable(table)`
    KeyNotFoundForTable(String),
    /// `InvalidValueForKey(key)`
    InvalidValueForKey(String),
    Error,
}

/// The errors that may occur when loading a configuration file.
#[derive(Debug, Clone)]
pub enum ConfigurationError {
    TableNotFound(String),
    /// `KeyNotFound(table, key)`
    KeyNotFound(String, String),
    /// `InvalidValue(key, value)`
    InvalidValue(String, String),
    Error(String),
}

/// The content of a [`ConfigurationError`].
pub enum ConfigError {
    TableNotFound(Seq<char>),
    KeyNotFound(Seq<char>, Seq<char>),
    InvalidValue(Seq<char>, Seq<char>),
    Error(Seq<char>),
}

impl View for ConfigurationError {
    type V = ConfigError;

    open spec fn view(&self) -> ConfigError {
        match self {
            ConfigurationError::TableNotFound(t) => ConfigError::TableNotFound(t@),
            ConfigurationError::KeyNotFound(t, k) => ConfigError::KeyNotFound(t@, k@),
            ConfigurationError::InvalidValue(k, v) => ConfigError::InvalidValue(k@, v@),
            ConfigurationError::Error(e) => ConfigError::Error(e@),
        }
    }
}

/// The text that describes an error to the user.
pub open spec fn error_message(e: ConfigError) -> Seq<char> {
    match e {
        ConfigError::TableNotFound(t) => "No table '"@ + t + "' found."@,
        ConfigError::KeyNotFound(t, k) => "No key '"@ + k + "' found in table '"@ + t + "'."@,
        ConfigError::InvalidValue(k, v) => "Invalid value `"@ + v + "` for key '"@ + k + "'."@,
        ConfigError::Error(e) => e,
    }
}

impl ConfigurationError {
    /// Creates a new `ConfigurationError` of the given `ErrorType`, about `value`.
    pub fn new(value: String, error_type: ErrorType) -> (r: Self)
        ensures
            r@ == match error_type {
                ErrorType::TableNotFound => ConfigError::TableNotFound(value@),
                ErrorType::KeyNotFoundForTable(t) => ConfigError::KeyNotFound(t@, value@),
                ErrorType::InvalidValueForKey(k) => ConfigError::InvalidValue(k@, value@),
                ErrorType::Error => ConfigError::Error(value@),
            },
    {
        match error_type {
            ErrorType::TableNotFound => ConfigurationError::TableNotFound(value),
            ErrorType::KeyNotFoundForTable(t) => ConfigurationError::KeyNotFound(t, value),
            ErrorType::InvalidValueForKey(k) => ConfigurationError::InvalidValue(k, value),
            ErrorType::Error => ConfigurationError::Error(value),
        }
    }

    /// The error for a `key` that is missing from the table `table`.
    pub fn new_key_not_found_err(key: String, table: String) -> (r: Self)
        ensures
            r@ == ConfigError::KeyNotFound(table@, key@),
    {
        ConfigurationError::KeyNotFound(table, key)
    }

    /// The text that describes the error to the user.
    pub fn message(&self) -> (r: String)
        ensures
            r@ == error_message(self@),
    {
        match self {
            ConfigurationError::TableNotFound(t) => {
                let r = text::concat("No table '", t.as_str());
                text::concat(r.as_str(), "' found.")
            },
            ConfigurationError::KeyNotFound(t, k) => {
                let r = text::concat("No key '", k.as_str());
                let r = text::concat(r.as_str(), "' found in table '");
                let r = text::concat(r.as_str(), t.as_str());
                text::concat(r.as_str(), "'.")
            },
            ConfigurationError::InvalidValue(k, v) => {
                let r = text::concat("Invalid value `", v.as_str());
                let r = text::concat(r.as_str(), "` for key '");
                let r = text::concat(r.as_str(), k.as_str());
                text::concat(r.as_str(), "'.")
            },
            ConfigurationError::Error(e) => e.clone(),
        }
    }
}

} // verus!
