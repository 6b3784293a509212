//! The fully validated input of the scheduler.

use vstd::prelude::*;

use super::{CommandConfig, KillBehavior};

verus! {

/// What one engine run executes: the commands, the label width, the
/// top-level environment, and the kill policy.
#[derive(Debug)]
pub struct RunConfig {
    pub commands: Vec<CommandConfig>,
    pub max_label_length: usize,
    pub envs: Option<Vec<(String, String)>>,
    pub kill: KillBehavior,
}

} // verus!
