//! Errors of configuration discovery and parsing.  Causes that arise in
//! outside parsers are carried as rendered messages.

use vstd::prelude::*;

use super::format::ConfigFormat;

verus! {

/// What went wrong with the `Cargo.toml` metadata table.
#[derive(Debug)]
pub enum CargoMetadataError {
    InvalidToml(String),
    NoData,
    CargoTomlIsNotTable,
    InvalidDataStructure(String),
    FoundMultiple,
}

/// Why a configuration text failed to parse, by format.
#[derive(Debug)]
pub enum ConfigDeserializeErrorKind {
    JsonError(String),
    YamlError(String),
    RonError(String),
    TomlError(String),
    CargoMetadataError(CargoMetadataError),
}

/// A parse failure, with the file it came from.
#[derive(Debug)]
pub struct ConfigDeserializeError {
    pub filename: String,
    pub format: ConfigFormat,
    pub kind: ConfigDeserializeErrorKind,
}

/// Why one configuration file could not be read.
#[derive(Debug)]
pub enum ReadConfigError {
    DeserializeError(ConfigDeserializeError),
    OpenFileError { file: String, error: String },
}

/// Why the configuration search came up empty-handed.
#[derive(Debug)]
pub enum FindConfigError {
    NoFileMatch { patterns: Vec<String>, dir: String },
    ReadError(ReadConfigError),
    UnknownExtension { file: String, extension: Option<String> },
}

impl From<ConfigDeserializeError> for ReadConfigError {
    fn from(err: ConfigDeserializeError) -> (r: Self) {
        Self::DeserializeError(err)
    }
}

impl vstd::std_specs::convert::FromSpecImpl<ConfigDeserializeError> for ReadConfigError {
    open spec fn obeys_from_spec() -> bool {
        true
    }

    open spec fn from_spec(err: ConfigDeserializeError) -> Self {
        Self::DeserializeError(err)
    }
}

impl From<ReadConfigError> for FindConfigError {
    fn from(err: ReadConfigError) -> (r: Self) {
        Self::ReadError(err)
    }
}

impl vstd::std_specs::convert::FromSpecImpl<ReadConfigError> for FindConfigError {
    open spec fn obeys_from_spec() -> bool {
        true
    }

    open spec fn from_spec(err: ReadConfigError) -> Self {
        Self::ReadError(err)
    }
}

} // verus!
