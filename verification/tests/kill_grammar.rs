use runcc::{ExitStatusPattern, KillBehavior};

#[test]
fn kill_policy_keywords() {
    assert_eq!(KillBehavior::from_str("None"), Ok(KillBehavior::Nothing));
    assert_eq!(
        KillBehavior::from_str("WhenAnyExited"),
        Ok(KillBehavior::WhenAnyExited)
    );
    assert_eq!(
        KillBehavior::from_str("WhenAnySucceeded"),
        Ok(KillBehavior::WhenAnyExitedWithStatus(
            ExitStatusPattern::Success
        ))
    );
    assert_eq!(
        KillBehavior::from_str("WhenAnyFailed"),
        Ok(KillBehavior::WhenAnyExitedWithStatus(
            ExitStatusPattern::Failed
        ))
    );
}

#[test]
fn kill_policy_status_codes() {
    assert_eq!(
        KillBehavior::from_str("0"),
        Ok(KillBehavior::WhenAnyExitedWithStatus(
            ExitStatusPattern::StatusCode(0)
        ))
    );
    assert_eq!(
        KillBehavior::from_str("137"),
        Ok(KillBehavior::WhenAnyExitedWithStatus(
            ExitStatusPattern::StatusCode(137)
        ))
    );
    assert_eq!(
        KillBehavior::from_str("-1"),
        Ok(KillBehavior::WhenAnyExitedWithStatus(
            ExitStatusPattern::StatusCode(-1)
        ))
    );
    assert_eq!(
        KillBehavior::from_str("2147483647"),
        Ok(KillBehavior::WhenAnyExitedWithStatus(
            ExitStatusPattern::StatusCode(i32::MAX)
        ))
    );
    assert_eq!(
        KillBehavior::from_str("-2147483648"),
        Ok(KillBehavior::WhenAnyExitedWithStatus(
            ExitStatusPattern::StatusCode(i32::MIN)
        ))
    );
    assert_eq!(
        KillBehavior::from_str("-0"),
        Ok(KillBehavior::WhenAnyExitedWithStatus(
            ExitStatusPattern::StatusCode(0)
        ))
    );
}

#[test]
fn kill_policy_rejects_everything_else() {
    for bad in [
        "",
        "-",
        "none",
        "2147483648",
        "-2147483649",
        "12x",
        "When",
        "007",
        "00",
        "-01",
        " 5",
    ] {
        assert_eq!(KillBehavior::from_str(bad), Err(String::from(bad)));
    }
}

#[test]
fn default_kill_policy_is_idle() {
    assert_eq!(KillBehavior::default(), KillBehavior::Nothing);
}
