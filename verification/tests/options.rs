use clap::{Arg, ArgAction, Command};
use runcc::cli::{apply_cli_overrides, ConfigResolution, Opts, OptionsError};
use runcc::{KillBehavior, RunConfig};

#[test]
fn parse_multiple_env() {
    let cmd = Command::new("test").arg(
        Arg::new("env")
            .short('e')
            .long("env")
            .action(ArgAction::Append),
    );
    let matches = cmd.get_matches_from(["test", "--env", "A=a", "--env", "B=1"]);
    let env: Vec<String> = matches
        .get_many::<String>("env")
        .unwrap()
        .cloned()
        .collect();
    assert_eq!(env, ["A=a", "B=1"]);

    let opts = Opts {
        command: vec![],
        config: None,
        max_label_length: None,
        env,
        kill: None,
    };
    assert_eq!(opts.env, ["A=a", "B=1"]);
}

fn opts_with_commands(commands: Vec<&str>) -> Opts {
    Opts {
        command: commands.into_iter().map(String::from).collect(),
        config: None,
        max_label_length: None,
        env: vec![],
        kill: None,
    }
}

#[test]
fn positional_commands_resolve_directly() {
    let opts = opts_with_commands(vec!["echo a", "echo b"]);
    match opts.try_into_config() {
        Ok(ConfigResolution::Ready(config)) => {
            assert_eq!(config.commands.len(), 2);
            assert_eq!(config.commands[0].program, "sh");
            assert_eq!(
                config.commands[0].args,
                Some(vec![String::from("-c"), String::from("echo a")])
            );
            assert_eq!(config.commands[0].label, Some(String::from("echo a")));
            assert_eq!(config.kill, KillBehavior::Nothing);
            // both labels are 6 characters wide
            assert_eq!(config.max_label_length, 6);
        }
        _ => panic!("expected a ready configuration"),
    }
}

#[test]
fn commands_and_config_file_exclude_each_other() {
    let mut opts = opts_with_commands(vec!["echo a"]);
    opts.config = Some(None);
    match opts.try_into_config() {
        Err(OptionsError::DuplicateConfigs) => {}
        _ => panic!("expected DuplicateConfigs"),
    }
}

#[test]
fn no_commands_searches_working_directory() {
    let opts = opts_with_commands(vec![]);
    match opts.try_into_config() {
        Ok(ConfigResolution::FromFile { path, .. }) => assert!(path.is_none()),
        _ => panic!("expected a file search"),
    }
}

#[test]
fn invalid_env_argument_is_rejected() {
    let mut opts = opts_with_commands(vec!["echo a"]);
    opts.env = vec![String::from("A=a"), String::from("not-a-pair")];
    match opts.try_into_config() {
        Err(OptionsError::EnvSyntaxError(bad)) => assert_eq!(bad, "not-a-pair"),
        _ => panic!("expected EnvSyntaxError"),
    }
}

#[test]
fn env_arguments_become_pairs() {
    let mut opts = opts_with_commands(vec!["echo a"]);
    opts.env = vec![String::from("A=a"), String::from("B=1")];
    match opts.try_into_config() {
        Ok(ConfigResolution::Ready(config)) => {
            assert_eq!(
                config.envs,
                Some(vec![
                    (String::from("A"), String::from("a")),
                    (String::from("B"), String::from("1")),
                ])
            );
        }
        _ => panic!("expected a ready configuration"),
    }
}

#[test]
fn cli_overrides_replace_and_append() {
    let config = RunConfig {
        commands: vec![],
        max_label_length: 7,
        envs: Some(vec![(String::from("A"), String::from("1"))]),
        kill: KillBehavior::Nothing,
    };
    let merged = apply_cli_overrides(
        config,
        Some(vec![(String::from("B"), String::from("2"))]),
        Some(9),
        Some(KillBehavior::WhenAnyExited),
    );
    assert_eq!(merged.max_label_length, 9);
    assert_eq!(merged.kill, KillBehavior::WhenAnyExited);
    assert_eq!(
        merged.envs,
        Some(vec![
            (String::from("A"), String::from("1")),
            (String::from("B"), String::from("2")),
        ])
    );
}

#[test]
fn cli_overrides_keep_file_values_when_absent() {
    let config = RunConfig {
        commands: vec![],
        max_label_length: 7,
        envs: None,
        kill: KillBehavior::WhenAnyExited,
    };
    let merged = apply_cli_overrides(config, None, None, None);
    assert_eq!(merged.max_label_length, 7);
    assert_eq!(merged.kill, KillBehavior::WhenAnyExited);
    assert_eq!(merged.envs, None);
}
