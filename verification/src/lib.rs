//! Verified core of a concurrent command runner: a lexer for leading inline
//! environment assignments, a label formatter, an ANSI line rewriter,
//! configuration types with their conversions, and the decision logic of the
//! kill-propagation scheduler.

pub mod ansi_escape;
pub mod cli;
pub mod config;
pub mod env;
pub mod label;
pub mod run;
pub mod text;

pub use config::read;
pub use config::{
    CommandConfig, CommandConfigFromScriptOptions, CommandConfigInput, CommandConfigsInput,
    CommandInvocation, EnvName, ExitStatusPattern, InvalidEnvName, KillBehavior,
    KillBehaviorInput, KillBehaviorInputStr, RunConfig, RunConfigInput, WindowsCallCmdWithEnv,
};
pub use env::{match_one_env, match_program_with_envs, try_hex_to_u8};
pub use text::trim_str;
