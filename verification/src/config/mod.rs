//! Configuration of one engine run: command descriptors, the kill policy,
//! and the conversions from the looser shapes that configuration sources
//! produce.

mod command;
mod input;
mod kill;
mod run;

pub use command::{
    args_units, has_empty_args_label, is_script_config, join_upto, label_length_capped_spec,
    label_length_spec, label_text_spec, lemma_label_text_len, CommandConfig,
    CommandConfigFromScriptOptions, CommandInvocation,
};
pub use input::{
    are_configs_of_inputs, behavior_of_input, env_name_ok, get_random_env_name,
    is_config_of_input, is_config_of_labeled, max_label_len_upto, resolved_max_label_len,
    CommandConfigInput, CommandConfigsInput, EnvName, InvalidEnvName, KillBehaviorInput,
    KillBehaviorInputStr, RunConfigInput, WindowsCallCmdWithEnv,
};
pub use kill::{dec_digits_spec, policy_of_str, ExitStatusPattern, KillBehavior};
pub use run::RunConfig;

pub mod read;
