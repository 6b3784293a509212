//! Command entries as configuration sources write them: a raw script
//! string, a `[program, args...]` list, or a full descriptor.

use vstd::prelude::*;

use super::super::command::{
    is_script_config, CommandConfig, CommandConfigFromScriptOptions,
};

verus! {

/// One command entry of a configuration source.
#[derive(Debug)]
pub enum CommandConfigInput {
    Command(String),
    ProgramAndArgs(Vec<String>),
    CommandConfig(CommandConfig),
}

/// The whole command list of a configuration source: either a plain list,
/// or a mapping from label to optional entry.
#[derive(Debug)]
pub enum CommandConfigsInput {
    Commands(Vec<CommandConfigInput>),
    LabeledCommands(Vec<(String, Option<CommandConfigInput>)>),
}

/// What normalizing one entry yields.
pub open spec fn is_config_of_input(r: CommandConfig, input: CommandConfigInput) -> bool {
    match input {
        CommandConfigInput::Command(script) => is_script_config(r, script@),
        CommandConfigInput::ProgramAndArgs(names) => {
            &&& (names@.len() == 0 ==> r.program@.len() == 0 && r.args is None)
            &&& (names@.len() >= 1 ==> r.program == names@[0])
            &&& (names@.len() == 1 ==> r.args is None)
            &&& (names@.len() > 1 ==> (r.args matches Some(a) && a@ == names@.skip(1)))
            &&& r.label is None
            &&& r.envs is None
            &&& r.cwd is None
        },
        CommandConfigInput::CommandConfig(config) => r == config,
    }
}

/// What normalizing one labeled entry yields: the entry's own config with
/// the label written over it, or a bare program named by the label.
pub open spec fn is_config_of_labeled(
    r: CommandConfig,
    label: String,
    input: Option<CommandConfigInput>,
) -> bool {
    match input {
        Some(command) => {
            &&& (exists|base: CommandConfig|
                #[trigger] is_config_of_input(base, command) && r.program == base.program
                    && r.args == base.args && r.envs == base.envs && r.cwd == base.cwd)
            &&& r.label == Some(label)
        },
        None => {
            &&& r.program == label
            &&& r.args is None
            &&& r.label is None
            &&& r.envs is None
            &&& r.cwd is None
        },
    }
}

/// What normalizing the whole command list yields, element by element.
pub open spec fn are_configs_of_inputs(rs: Seq<CommandConfig>, input: CommandConfigsInput) -> bool {
    match input {
        CommandConfigsInput::Commands(commands) => {
            &&& rs.len() == commands@.len()
            &&& (forall|i: int|
                0 <= i < rs.len() ==> is_config_of_input(#[trigger] rs[i], commands@[i]))
        },
        CommandConfigsInput::LabeledCommands(entries) => {
            &&& rs.len() == entries@.len()
            &&& (forall|i: int|
                0 <= i < rs.len() ==> is_config_of_labeled(
                    #[trigger] rs[i],
                    entries@[i].0,
                    entries@[i].1,
                ))
        },
    }
}

impl CommandConfigInput {
    /// Normalizes one entry into a command descriptor.
    pub fn into_config(self, options: &CommandConfigFromScriptOptions) -> (r: CommandConfig)
        ensures
            is_config_of_input(r, self),
    {
        match self {
            CommandConfigInput::Command(script) => CommandConfig::from_script(
                script.as_str(),
                options,
            ),
            CommandConfigInput::ProgramAndArgs(mut names) => {
                let program = if names.is_empty() {
                    String::new()
                } else {
                    names.remove(0)
                };
                CommandConfig::from_program_args(
                    program,
                    if names.is_empty() {
                        None
                    } else {
                        Some(names)
                    },
                )
            },
            CommandConfigInput::CommandConfig(config) => config,
        }
    }
}

impl CommandConfigsInput {
    /// Normalizes the whole command list, keeping its order.  For a labeled
    /// entry the label overrides whatever the entry itself carries.
    pub fn into_configs(self, options: &CommandConfigFromScriptOptions) -> (r: Vec<CommandConfig>)
        ensures
            are_configs_of_inputs(r@, self),
    {
        match self {
            CommandConfigsInput::Commands(mut commands) => {
                let ghost all = commands@;
                let mut out: Vec<CommandConfig> = Vec::new();
                while commands.len() > 0
                    invariant
                        out@.len() + commands@.len() == all.len(),
                        commands@ =~= all.skip(out@.len() as int),
                        forall|i: int|
                            0 <= i < out@.len() ==> is_config_of_input(
                                #[trigger] out@[i],
                                all[i],
                            ),
                    decreases commands@.len(),
                {
                    let cmd = commands.remove(0);
                    proof {
                        assert(cmd == all[out@.len() as int]);
                    }
                    let config = cmd.into_config(options);
                    out.push(config);
                    proof {
                        assert(commands@ =~= all.skip(out@.len() as int));
                    }
                }
                out
            },
            CommandConfigsInput::LabeledCommands(mut entries) => {
                let ghost all = entries@;
                let mut out: Vec<CommandConfig> = Vec::new();
                while entries.len() > 0
                    invariant
                        out@.len() + entries@.len() == all.len(),
                        entries@ =~= all.skip(out@.len() as int),
                        forall|i: int|
                            0 <= i < out@.len() ==> is_config_of_labeled(
                                #[trigger] out@[i],
                                all[i].0,
                                all[i].1,
                            ),
                    decreases entries@.len(),
                {
                    let (label, command) = entries.remove(0);
                    proof {
                        assert((label, command) == all[out@.len() as int]);
                    }
                    let config = match command {
                        Some(command) => {
                            let mut config: CommandConfig = command.into_config(options);
                            let ghost base = config;
                            config.label = Some(label);
                            proof {
                                assert(is_config_of_input(base, all[out@.len() as int].1->0));
                            }
                            config
                        },
                        None => CommandConfig::from_program_args(label, None),
                    };
                    out.push(config);
                    proof {
                        assert(entries@ =~= all.skip(out@.len() as int));
                    }
                }
                out
            },
        }
    }
}

} // verus!
