//! The command-line options and their resolution into a run configuration,
//! up to the point where a configuration file would have to be read.

use vstd::prelude::*;

use crate::config::{
    is_script_config, max_label_len_upto, resolved_max_label_len, CommandConfigInput,
    CommandConfigsInput, KillBehavior, RunConfig, RunConfigInput, WindowsCallCmdWithEnv,
};
use crate::env::{match_one_env, one_env_spec};

use super::error::OptionsError;

verus! {

/// The options of the command-line front end.
#[derive(Debug)]
pub struct Opts {
    /// Commands to run concurrently.
    pub command: Vec<String>,
    /// Configuration file path; `Some(None)` means "search the working
    /// directory".
    pub config: Option<Option<String>>,
    /// Maximum width to print labels with.
    pub max_label_length: Option<usize>,
    /// `KEY=VALUE` environment pairs.
    pub env: Vec<String>,
    /// What to do after some command exits.
    pub kill: Option<KillBehavior>,
}

/// The pair a `-e` argument carries: the argument must be one `KEY=VALUE`
/// token and nothing else.  The lexer closes a pair on whitespace, so the
/// argument is judged with a terminator appended.
pub open spec fn env_arg_pair(s: Seq<char>) -> Option<(Seq<char>, Seq<char>)> {
    let t = s.push(' ');
    if one_env_spec(t).0 is Some && one_env_spec(t).1.len() == 0 {
        one_env_spec(t).0
    } else {
        None
    }
}

/// Every `-e` argument parses as exactly one `KEY=VALUE` token.
pub open spec fn envs_all_ok(env: Seq<String>) -> bool {
    forall|k: int| 0 <= k < env.len() ==> env_arg_pair(#[trigger] env[k]@) is Some
}

/// How far the options got on their own: a full configuration, or the need
/// to read a configuration file, with the overrides to apply to it.
pub enum ConfigResolution {
    Ready(RunConfig),
    FromFile {
        path: Option<String>,
        envs: Option<Vec<(String, String)>>,
        max_label_length: Option<usize>,
        kill: Option<KillBehavior>,
    },
}

/// Parses every `-e` argument, stopping at the first malformed one.
fn parse_env_args(env: Vec<String>) -> (r: Result<Option<Vec<(String, String)>>, OptionsError>)
    ensures
        r is Ok <==> envs_all_ok(env@),
        r matches Err(e) ==> (e matches OptionsError::EnvSyntaxError(bad) && exists|k: int|
            0 <= k < env@.len() && bad == env@[k] && env_arg_pair(#[trigger] env@[k]@) is None
                && (forall|m: int| 0 <= m < k ==> env_arg_pair(#[trigger] env@[m]@) is Some)),
        r matches Ok(pairs) ==> (env@.len() == 0 <==> pairs is None),
        r matches Ok(pairs) ==> (pairs matches Some(ps) ==> ps@.len() == env@.len() && forall|
            k: int,
        |
            0 <= k < env@.len() ==> (#[trigger] ps@[k].0@, ps@[k].1@) == env_arg_pair(
                env@[k]@,
            )->0),
{
    if env.len() == 0 {
        return Ok(None);
    }
    let mut pairs: Vec<(String, String)> = Vec::new();
    let n = env.len();
    let mut k: usize = 0;
    while k < n
        invariant
            k <= n,
            n == env@.len(),
            pairs@.len() == k,
            forall|m: int|
                0 <= m < k ==> env_arg_pair(#[trigger] env@[m]@) is Some && (pairs@[m].0@,
                pairs@[m].1@) == env_arg_pair(env@[m]@)->0,
        decreases n - k,
    {
        let mut padded = env[k].clone();
        crate::text::push_char(&mut padded, ' ');
        let (kv, rest) = match_one_env(padded.as_str());
        match kv {
            Some(kv) => {
                if rest.as_str().is_empty() {
                    pairs.push(kv);
                    k = k + 1;
                } else {
                    proof {
                        assert(env_arg_pair(env@[k as int]@) is None);
                    }
                    return Err(OptionsError::EnvSyntaxError(env[k].clone()));
                }
            },
            None => {
                proof {
                    assert(env_arg_pair(env@[k as int]@) is None);
                }
                return Err(OptionsError::EnvSyntaxError(env[k].clone()));
            },
        }
    }
    Ok(Some(pairs))
}

impl Opts {
    /// Resolves the options as far as they go without touching the file
    /// system.  Positional commands yield a ready configuration; otherwise
    /// a configuration file must be read, by the given path or by search.
    /// Positional commands and a configuration file exclude each other, and
    /// every `-e` argument must be a single `KEY=VALUE` token.  Each
    /// outcome comes exactly when its cause holds: a malformed `-e`
    /// argument is reported first, then the source conflict; every other
    /// input resolves.
    pub fn try_into_config(self) -> (r: Result<ConfigResolution, OptionsError>)
        ensures
            (r matches Err(OptionsError::EnvSyntaxError(_))) <==> !envs_all_ok(self.env@),
            (r matches Err(OptionsError::DuplicateConfigs)) <==> (envs_all_ok(self.env@)
                && self.command@.len() > 0 && self.config is Some),
            (r matches Ok(ConfigResolution::Ready(_))) <==> (envs_all_ok(self.env@)
                && self.command@.len() > 0 && self.config is None),
            (r matches Ok(ConfigResolution::FromFile { .. })) <==> (envs_all_ok(self.env@)
                && self.command@.len() == 0),
            r matches Err(e) ==> !(e is ConfigFileError) && !(e is NoConfigs),
            r matches Err(e) ==> (e matches OptionsError::EnvSyntaxError(bad) ==> exists|k: int|
                0 <= k < self.env@.len() && bad == self.env@[k] && env_arg_pair(
                    #[trigger] self.env@[k]@,
                ) is None && (forall|m: int|
                    0 <= m < k ==> env_arg_pair(#[trigger] self.env@[m]@) is Some)),
            r matches Ok(c) ==> (c matches ConfigResolution::Ready(config) ==> {
                &&& config.commands@.len() == self.command@.len()
                &&& (forall|i: int|
                    0 <= i < config.commands@.len() ==> is_script_config(
                        #[trigger] config.commands@[i],
                        self.command@[i]@,
                    ))
                &&& config.kill == (match self.kill {
                    Some(k) => k,
                    None => KillBehavior::Nothing,
                })
                &&& config.max_label_length == resolved_max_label_len(
                    self.max_label_length,
                    max_label_len_upto(config.commands@, config.commands@.len() as int),
                )
                &&& (config.envs is Some <==> self.env@.len() > 0)
                &&& (config.envs matches Some(es) ==> es@.len() == self.env@.len() && forall|
                    k: int,
                |
                    0 <= k < es@.len() ==> (#[trigger] es@[k].0@, es@[k].1@) == env_arg_pair(
                        self.env@[k]@,
                    )->0)
            }),
            r matches Ok(c) ==> (c matches ConfigResolution::FromFile {
                path,
                envs,
                max_label_length,
                kill,
            } ==> {
                &&& self.command@.len() == 0
                &&& (match self.config {
                    Some(p) => path == p,
                    None => path is None,
                })
                &&& max_label_length == self.max_label_length
                &&& kill == self.kill
                &&& (envs is Some <==> self.env@.len() > 0)
                &&& (envs matches Some(es) ==> es@.len() == self.env@.len() && forall|k: int|
                    0 <= k < es@.len() ==> (#[trigger] es@[k].0@, es@[k].1@) == env_arg_pair(
                        self.env@[k]@,
                    )->0)
            }),
    {
        let Opts { command: commands, config, max_label_length, env, kill } = self;
        let envs = match parse_env_args(env) {
            Ok(envs) => envs,
            Err(e) => {
                return Err(e);
            },
        };
        // with neither commands nor a configuration path, search the
        // working directory for a configuration file
        let no_commands = commands.len() == 0;
        let config = if no_commands && config.is_none() {
            Some(None)
        } else {
            config
        };
        if commands.len() > 0 {
            if config.is_some() {
                return Err(OptionsError::DuplicateConfigs);
            }
            let mut inputs: Vec<CommandConfigInput> = Vec::new();
            let mut commands = commands;
            let ghost all = commands@;
            while commands.len() > 0
                invariant
                    inputs@.len() + commands@.len() == all.len(),
                    commands@ =~= all.skip(inputs@.len() as int),
                    forall|i: int|
                        0 <= i < inputs@.len() ==> #[trigger] inputs@[i]
                            == CommandConfigInput::Command(all[i]),
                decreases commands@.len(),
            {
                let script = commands.remove(0);
                proof {
                    assert(script == all[inputs@.len() as int]);
                }
                inputs.push(CommandConfigInput::Command(script));
                proof {
                    assert(commands@ =~= all.skip(inputs@.len() as int));
                }
            }
            let input = RunConfigInput {
                commands: CommandConfigsInput::Commands(inputs),
                max_label_length,
                envs,
                kill: match kill {
                    Some(k) => k,
                    None => KillBehavior::default(),
                },
                windows_call_cmd_with_env: WindowsCallCmdWithEnv::default(),
            };
            let config = input.into_config();
            Ok(ConfigResolution::Ready(config))
        } else {
            match config {
                Some(path) => Ok(
                    ConfigResolution::FromFile { path, envs, max_label_length, kill },
                ),
                None => Err(OptionsError::NoConfigs),
            }
        }
    }
}

/// Writes the command-line overrides over a configuration read from a
/// file: `-e` pairs are appended to the file's environment, and an explicit
/// width limit or kill policy replaces the file's.
pub fn apply_cli_overrides(
    config: RunConfig,
    envs: Option<Vec<(String, String)>>,
    max_label_length: Option<usize>,
    kill: Option<KillBehavior>,
) -> (r: RunConfig)
    ensures
        r.commands == config.commands,
        r.max_label_length == (match max_label_length {
            Some(v) => v,
            None => config.max_label_length,
        }),
        r.kill == (match kill {
            Some(k) => k,
            None => config.kill,
        }),
        (envs is None ==> r.envs == config.envs),
        (envs matches Some(e) ==> (r.envs matches Some(es) && es@ == (match config.envs {
            Some(o) => o@,
            None => Seq::empty(),
        }) + e@)),
{
    let RunConfig { commands, max_label_length: old_max, envs: old_envs, kill: old_kill } = config;
    let new_envs = match envs {
        None => old_envs,
        Some(e) => {
            match old_envs {
                Some(mut o) => {
                    let ghost before = o@;
                    let n = e.len();
                    let mut k: usize = 0;
                    while k < n
                        invariant
                            k <= n,
                            n == e@.len(),
                            o@ == before + e@.take(k as int),
                        decreases n - k,
                    {
                        let p = &e[k];
                        o.push((p.0.clone(), p.1.clone()));
                        proof {
                            assert((e@[k as int].0, e@[k as int].1) == e@[k as int]);
                            assert(o@ =~= before + e@.take(k + 1));
                        }
                        k = k + 1;
                    }
                    proof {
                        assert(e@.take(n as int) =~= e@);
                    }
                    Some(o)
                },
                None => {
                    proof {
                        assert(Seq::<(String, String)>::empty() + e@ =~= e@);
                    }
                    Some(e)
                },
            }
        },
    };
    let new_max = match max_label_length {
        Some(v) => v,
        None => old_max,
    };
    let new_kill = match kill {
        Some(k) => k,
        None => old_kill,
    };
    RunConfig { commands, max_label_length: new_max, envs: new_envs, kill: new_kill }
}

} // verus!
