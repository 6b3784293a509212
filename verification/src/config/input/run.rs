//! The run configuration as configuration sources write it, and its
//! normalization.

use vstd::prelude::*;

use super::super::command::{label_length_capped_spec, CommandConfig, CommandConfigFromScriptOptions};
use super::super::run::RunConfig;
use super::super::KillBehavior;
use super::command::{are_configs_of_inputs, CommandConfigsInput};
use super::win_cmd::WindowsCallCmdWithEnv;

verus! {

/// A run configuration as read from a configuration source.
#[derive(Debug)]
pub struct RunConfigInput {
    pub commands: CommandConfigsInput,
    pub max_label_length: Option<usize>,
    pub envs: Option<Vec<(String, String)>>,
    pub kill: KillBehavior,
    pub windows_call_cmd_with_env: WindowsCallCmdWithEnv,
}

/// The widest label among the first `i` commands, each width capped at what
/// a `usize` holds.
pub open spec fn max_label_len_upto(cmds: Seq<CommandConfig>, i: int) -> int
    decreases i when i <= cmds.len()
{
    if i <= 0 {
        0
    } else {
        let prev = max_label_len_upto(cmds, i - 1);
        let cur = label_length_capped_spec(cmds[i - 1]);
        if cur > prev {
            cur
        } else {
            prev
        }
    }
}

/// How the configured width limit and the widest actual label resolve: no
/// limit, or a limit of zero, means the actual width; otherwise the smaller
/// of the two.
pub open spec fn resolved_max_label_len(user: Option<usize>, widest: int) -> int {
    match user {
        None => widest,
        Some(v) => if v == 0 {
            widest
        } else if v <= widest {
            v as int
        } else {
            widest
        },
    }
}

impl RunConfigInput {
    /// Normalizes the configuration into the scheduler's input: the command
    /// list keeps its order, and the label width limit resolves against the
    /// widest actual label.
    pub fn into_config(self) -> (r: RunConfig)
        ensures
            are_configs_of_inputs(r.commands@, self.commands),
            r.max_label_length == resolved_max_label_len(
                self.max_label_length,
                max_label_len_upto(r.commands@, r.commands@.len() as int),
            ),
            r.envs == self.envs,
            r.kill == self.kill,
    {
        let RunConfigInput { commands, max_label_length, envs, kill, windows_call_cmd_with_env } =
            self;
        let options = CommandConfigFromScriptOptions { windows_call_cmd_with_env };
        let commands = commands.into_configs(&options);
        let n = commands.len();
        let mut real_max: usize = 0;
        let mut i: usize = 0;
        while i < n
            invariant
                i <= n,
                n == commands@.len(),
                real_max == max_label_len_upto(commands@, i as int),
            decreases n - i,
        {
            let cur = commands[i].label_length_capped();
            if cur > real_max {
                real_max = cur;
            }
            i = i + 1;
        }
        let max_label_length = match max_label_length {
            None => real_max,
            Some(v) => if v == 0 {
                real_max
            } else if v <= real_max {
                v
            } else {
                real_max
            },
        };
        RunConfig { commands, max_label_length, envs, kill }
    }
}

} // verus!
