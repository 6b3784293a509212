//! Discovery of configuration files: the candidate names, the format each
//! extension stands for, and the errors the search can report.

pub mod error;
mod format;

pub use error::{
    CargoMetadataError, ConfigDeserializeError, ConfigDeserializeErrorKind, FindConfigError,
    ReadConfigError,
};
pub use format::{
    config_file_candidates, extension_table, format_for_filename, format_of_filename, has_suffix,
    ConfigFileData, ConfigFormat,
};
