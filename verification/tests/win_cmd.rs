use runcc::{EnvName, WindowsCallCmdWithEnv};

#[test]
fn test_is_valid_env_name() {
    assert!(EnvName::check_str("MY_ENV_0123_"));

    assert!(!EnvName::check_str(""));
    assert!(!EnvName::check_str(" "));
    assert!(!EnvName::check_str("123abc"));
    assert!(!EnvName::check_str("_MY_ENV"));
}

#[test]
fn env_name_validation_round_trip() {
    let name = EnvName::try_from(String::from("PATHLIKE_9")).unwrap();
    assert_eq!(name.to_string(), "PATHLIKE_9");

    let err = EnvName::try_from(String::from("9PATH")).unwrap_err();
    assert_eq!(err.0, "9PATH");
}

#[test]
fn random_env_name_is_well_formed() {
    let name = WindowsCallCmdWithEnv::Random.try_into_env_name().unwrap();
    assert_eq!(name.chars().count(), 23);
    assert!(EnvName::check_str(&name));
}

#[test]
fn chosen_env_name_is_kept() {
    let chosen = EnvName::try_from(String::from("MY_VAR")).unwrap();
    let name = WindowsCallCmdWithEnv::EnvName(chosen).try_into_env_name();
    assert_eq!(name, Some(String::from("MY_VAR")));
}

#[test]
fn disabled_indirection_yields_no_name() {
    assert_eq!(WindowsCallCmdWithEnv::Disable.try_into_env_name(), None);
}

#[test]
fn random_name_generator_range() {
    let name = runcc::config::get_random_env_name();
    assert_eq!(name.len(), 8);
    assert!(name.chars().all(|c| c.is_ascii_alphabetic()));
}
