//! Runtime errors, and the format-specific errors that convert into them.

use vstd::prelude::*;
use vstd::std_specs::convert::FromSpecImpl;

verus! {

/// Errors raised while running a program.
#[derive(Debug, Clone)]
pub enum RuntimeError {
    TypeError { message: String },
    UndefinedVariable { name: String },
    InvalidOperation { message: String },
    IndexOutOfBounds { message: String },
    KeyNotFound { message: String },
    InvalidKeyType { message: String },
    ShellError { message: String },
    RegexError { message: String },
    ArityMismatch { message: String },
    MethodError { message: String },
    MapMethodError { method: String, message: String },
    InvalidNumberConversion { message: String },
    StreamError { message: String },
    JsonParseError { message: String, json_input: Option<String> },
    JsonGenerateError { message: String, value_type: String },
    TomlParseError { message: String, toml_input: Option<String> },
    TomlGenerateError { message: String, value_type: String },
    TomlConversionError { message: String },
}

/// Errors of JSON parsing and generation.
#[derive(Debug, Clone)]
pub enum JsonError {
    /// The input is not valid JSON.
    ParseError { message: String, json_input: Option<String> },
    /// A value has no JSON representation.
    GenerateError { message: String, value_type: String },
}

/// Errors of TOML parsing, generation and conversion.
#[derive(Debug)]
pub enum TomlError {
    /// The input is not valid TOML.
    ParseError { message: String, toml_input: Option<String> },
    /// A value could not be written as TOML.
    GenerateError { message: String, value_type: String },
    /// A value has no TOML representation.
    ConversionError { message: String },
}

/// The runtime error that a JSON error becomes: each variant keeps its fields.
pub open spec fn json_error_to_runtime(err: JsonError) -> RuntimeError {
    match err {
        JsonError::ParseError { message, json_input } => RuntimeError::JsonParseError { message, json_input },
        JsonError::GenerateError { message, value_type } => RuntimeError::JsonGenerateError { message, value_type },
    }
}

/// The runtime error that a TOML error becomes: each variant keeps its fields.
pub open spec fn toml_error_to_runtime(err: TomlError) -> RuntimeError {
    match err {
        TomlError::ParseError { message, toml_input } => RuntimeError::TomlParseError { message, toml_input },
        TomlError::GenerateError { message, value_type } => RuntimeError::TomlGenerateError { message, value_type },
        TomlError::ConversionError { message } => RuntimeError::TomlConversionError { message },
    }
}

impl From<JsonError> for RuntimeError {
    fn from(err: JsonError) -> (r: Self) {
        match err {
            JsonError::ParseError { message, json_input } => RuntimeError::JsonParseError { message, json_input },
            JsonError::GenerateError { message, value_type } => RuntimeError::JsonGenerateError { message, value_type },
        }
    }
}

impl FromSpecImpl<JsonError> for RuntimeError {
    open spec fn obeys_from_spec() -> bool {
        true
    }

    open spec fn from_spec(v: JsonError) -> Self {
        json_error_to_runtime(v)
    }
}

impl From<TomlError> for RuntimeError {
    fn from(err: TomlError) -> (r: Self) {
        match err {
            TomlError::ParseError { message, toml_input } => RuntimeError::TomlParseError { message, toml_input },
            TomlError::GenerateError { message, value_type } => RuntimeError::TomlGenerateError { message, value_type },
            TomlError::ConversionError { message } => RuntimeError::TomlConversionError { message },
        }
    }
}

impl FromSpecImpl<TomlError> for RuntimeError {
    open spec fn obeys_from_spec() -> bool {
        true
    }

    open spec fn from_spec(v: TomlError) -> Self {
        toml_error_to_runtime(v)
    }
}

} // verus!
