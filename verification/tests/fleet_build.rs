use runcc::run::build_invocations;
use runcc::{CommandConfig, CommandConfigFromScriptOptions, WindowsCallCmdWithEnv};

fn options() -> CommandConfigFromScriptOptions {
    CommandConfigFromScriptOptions {
        windows_call_cmd_with_env: WindowsCallCmdWithEnv::Disable,
    }
}

#[test]
fn inline_envs_reach_the_invocation() {
    // `KEY=val echo $KEY` runs `echo $KEY` under the shell with KEY set and
    // carries the remaining script as its label
    let config = CommandConfig::from_script("KEY=val echo $KEY", &options());
    let built = build_invocations(vec![config], 17, None);
    assert_eq!(built.len(), 1);
    let (invocation, data) = &built[0];
    assert_eq!(invocation.program, "sh");
    assert_eq!(
        invocation.args,
        vec![String::from("-c"), String::from("echo $KEY")]
    );
    assert_eq!(
        invocation.envs,
        vec![(String::from("KEY"), String::from("val"))]
    );
    // the label is the whole script, assignments included
    assert_eq!(data.label.label(), "KEY=val echo $KEY");
    assert_eq!(data.label.display(), "KEY=val echo $KEY");
}

#[test]
fn top_level_envs_come_before_command_envs() {
    let config = CommandConfig::from_script("A=own printenv", &options());
    let top = vec![(String::from("A"), String::from("top"))];
    let built = build_invocations(vec![config], 8, Some(&top));
    let (invocation, _) = &built[0];
    // later pairs override earlier ones when the environment is applied in
    // order, so the command's own pair comes last
    assert_eq!(
        invocation.envs,
        vec![
            (String::from("A"), String::from("top")),
            (String::from("A"), String::from("own")),
        ]
    );
}

#[test]
fn tiny_width_limits_are_screened_up_front() {
    let configs = vec![CommandConfig::from_program_args(
        String::from("verylongname"),
        None,
    )];
    // at width 2 the three-dot truncation marker itself would not fit
    assert!(!runcc::run::labels_fit_width(&configs, 2));
    assert!(runcc::run::labels_fit_width(&configs, 3));
}

#[test]
fn labels_are_formatted_to_the_fleet_width() {
    let configs = vec![
        CommandConfig::from_script("echo a", &options()),
        CommandConfig::from_script("sleep 10", &options()),
    ];
    let built = build_invocations(configs, 8, None);
    assert_eq!(built[0].1.label.display(), "echo a  ");
    assert_eq!(built[1].1.label.display(), "sleep 10");
}
