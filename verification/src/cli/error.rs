//! What can be wrong with the command-line options.

use vstd::prelude::*;

use crate::config::read::FindConfigError;

verus! {

/// Why the options could not be turned into a run configuration.
#[derive(Debug)]
pub enum OptionsError {
    ConfigFileError(FindConfigError),
    EnvSyntaxError(String),
    DuplicateConfigs,
    NoConfigs,
}

} // verus!
