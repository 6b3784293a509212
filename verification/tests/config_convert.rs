use runcc::{
    CommandConfig, CommandConfigFromScriptOptions, CommandConfigInput, CommandConfigsInput,
    KillBehavior, KillBehaviorInput, KillBehaviorInputStr, RunConfigInput, WindowsCallCmdWithEnv,
};
use runcc::read::{config_file_candidates, format_for_filename, ConfigFormat};
use runcc::ExitStatusPattern;

fn options() -> CommandConfigFromScriptOptions {
    CommandConfigFromScriptOptions {
        windows_call_cmd_with_env: WindowsCallCmdWithEnv::Disable,
    }
}

#[test]
fn script_runs_under_shell() {
    let config = CommandConfig::from_script("KEY=val echo $KEY", &options());
    assert_eq!(config.program, "sh");
    assert_eq!(
        config.args,
        Some(vec![String::from("-c"), String::from("echo $KEY")])
    );
    // the label is the whole script, assignments included
    assert_eq!(config.label, Some(String::from("KEY=val echo $KEY")));
    assert_eq!(
        config.envs,
        Some(vec![(String::from("KEY"), String::from("val"))])
    );
    assert_eq!(config.cwd, None);
}

#[test]
fn script_without_envs_has_none() {
    let config = CommandConfig::from_script("  echo a  ", &options());
    assert_eq!(config.args, Some(vec![String::from("-c"), String::from("echo a")]));
    assert_eq!(config.envs, None);
}

#[test]
fn program_args_entry_splits_head() {
    let input = CommandConfigInput::ProgramAndArgs(vec![
        String::from("cargo"),
        String::from("build"),
        String::from("--release"),
    ]);
    let config = input.into_config(&options());
    assert_eq!(config.program, "cargo");
    assert_eq!(
        config.args,
        Some(vec![String::from("build"), String::from("--release")])
    );
    assert_eq!(config.label, None);
}

#[test]
fn single_name_entry_has_no_args() {
    let input = CommandConfigInput::ProgramAndArgs(vec![String::from("ls")]);
    let config = input.into_config(&options());
    assert_eq!(config.program, "ls");
    assert_eq!(config.args, None);
}

#[test]
fn labeled_entry_overrides_label() {
    let input = CommandConfigsInput::LabeledCommands(vec![
        (
            String::from("web"),
            Some(CommandConfigInput::Command(String::from("echo serving"))),
        ),
        (String::from("ls"), None),
    ]);
    let configs = input.into_configs(&options());
    assert_eq!(configs.len(), 2);
    assert_eq!(configs[0].label, Some(String::from("web")));
    assert_eq!(configs[0].program, "sh");
    assert_eq!(configs[1].program, "ls");
    assert_eq!(configs[1].label, None);
    assert_eq!(configs[1].args, None);
}

#[test]
fn env_pair_is_appended() {
    let mut config = CommandConfig::from_program_args(String::from("ls"), None);
    config.env((String::from("A"), String::from("1")));
    config.env((String::from("B"), String::from("2")));
    assert_eq!(
        config.envs,
        Some(vec![
            (String::from("A"), String::from("1")),
            (String::from("B"), String::from("2")),
        ])
    );
}

#[test]
fn label_length_counts_program_and_args() {
    let config = CommandConfig::from_program_args(
        String::from("cargo"),
        Some(vec![String::from("build"), String::from("-q")]),
    );
    // "cargo" plus " build" plus " -q"
    assert_eq!(config.label_length(), 5 + 6 + 3);

    let labeled = CommandConfig {
        label: Some(String::from("xy")),
        ..config
    };
    assert_eq!(labeled.label_length(), 2);
}

#[test]
fn max_label_length_resolution() {
    let commands = || CommandConfigsInput::Commands(vec![
        CommandConfigInput::Command(String::from("echo a")),
        CommandConfigInput::Command(String::from("sleep 10")),
    ]);
    // widest label is "sleep 10", eight characters
    let base = |max| RunConfigInput {
        commands: commands(),
        max_label_length: max,
        envs: None,
        kill: KillBehavior::Nothing,
        windows_call_cmd_with_env: WindowsCallCmdWithEnv::Disable,
    };
    assert_eq!(base(None).into_config().max_label_length, 8);
    assert_eq!(base(Some(0)).into_config().max_label_length, 8);
    assert_eq!(base(Some(5)).into_config().max_label_length, 5);
    assert_eq!(base(Some(30)).into_config().max_label_length, 8);
}

#[test]
fn kill_behavior_input_normalizes() {
    assert_eq!(
        KillBehaviorInput::Str(KillBehaviorInputStr::Nothing).into_behavior(),
        KillBehavior::Nothing
    );
    assert_eq!(
        KillBehaviorInput::Str(KillBehaviorInputStr::WhenAnySucceeded).into_behavior(),
        KillBehavior::WhenAnyExitedWithStatus(ExitStatusPattern::Success)
    );
    assert_eq!(
        KillBehaviorInput::WhenAnyExitedWithStatus(9).into_behavior(),
        KillBehavior::WhenAnyExitedWithStatus(ExitStatusPattern::StatusCode(9))
    );
}

#[test]
fn config_candidates_in_search_order() {
    let candidates = config_file_candidates("runcc");
    let names: Vec<String> = candidates.iter().map(|(_, name)| name.clone()).collect();
    assert_eq!(
        names,
        [
            "runcc.json",
            "runcc.yml",
            "runcc.yaml",
            "runcc.ron",
            "runcc.toml"
        ]
    );
}

#[test]
fn filename_format_detection() {
    assert!(matches!(
        format_for_filename("Cargo.toml"),
        Some(ConfigFormat::CargoMetadata)
    ));
    assert!(matches!(
        format_for_filename("runcc.json"),
        Some(ConfigFormat::Json)
    ));
    assert!(matches!(
        format_for_filename("a.yml"),
        Some(ConfigFormat::Yaml)
    ));
    assert!(matches!(
        format_for_filename("a.yaml"),
        Some(ConfigFormat::Yaml)
    ));
    assert!(matches!(
        format_for_filename("a.ron"),
        Some(ConfigFormat::Ron)
    ));
    assert!(matches!(
        format_for_filename("other.toml"),
        Some(ConfigFormat::Toml)
    ));
    assert_eq!(format_for_filename("runcc.ini"), None);
}

#[test]
fn invocation_merges_environments_in_order() {
    let mut config = CommandConfig::from_program_args(String::from("env"), None);
    config.env((String::from("B"), String::from("own")));
    let inherited = vec![(String::from("A"), String::from("top"))];
    let (invocation, label) = config.into_invocation_and_label(Some(&inherited));
    assert_eq!(invocation.program, "env");
    assert_eq!(invocation.args, Vec::<String>::new());
    assert_eq!(
        invocation.envs,
        vec![
            (String::from("A"), String::from("top")),
            (String::from("B"), String::from("own")),
        ]
    );
    assert_eq!(label, "env");
}

#[test]
fn derived_label_joins_program_and_args() {
    let config = CommandConfig::from_program_args(
        String::from("cargo"),
        Some(vec![String::from("build"), String::from("-q")]),
    );
    let (_, label) = config.into_invocation_and_label(None);
    assert_eq!(label, "cargo build -q");
}
