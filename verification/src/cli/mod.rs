//! The decision core of the command-line front end: validating the
//! options, parsing `-e KEY=VALUE` arguments, and merging command-line
//! overrides into a configuration read from a file.

mod error;
mod options;

pub use error::OptionsError;
pub use options::{
    apply_cli_overrides, env_arg_pair, ConfigResolution, Opts,
};
