//! The looser shapes that configuration sources produce, and their
//! normalization into run configurations.

mod command;
mod kill;
mod run;
mod win_cmd;

pub use command::{
    are_configs_of_inputs, is_config_of_input, is_config_of_labeled, CommandConfigInput,
    CommandConfigsInput,
};
pub use kill::{behavior_of_input, KillBehaviorInput, KillBehaviorInputStr};
pub use run::{max_label_len_upto, resolved_max_label_len, RunConfigInput};
pub use win_cmd::{env_name_ok, get_random_env_name, EnvName, InvalidEnvName, WindowsCallCmdWithEnv};
