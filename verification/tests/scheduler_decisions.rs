use runcc::run::{
    classify_start_kill, kill_decision, policy_step, CommandKiller, CommandState, CommandStopped,
    CommandSystemSimpleReport, ExitStatusData, KillCommandReason, KillJoinHandleFinalStatus,
    KillResult, PolicyAction, StartKillError,
};
use runcc::{ExitStatusPattern, KillBehavior};

fn stopped(code: Option<i32>) -> CommandStopped<(), ()> {
    CommandStopped {
        data: (),
        exit_status: Ok(ExitStatusData::from_code(code)),
        killed: None,
    }
}

fn wait_failed() -> CommandStopped<(), ()> {
    CommandStopped {
        data: (),
        exit_status: Err(String::from("wait failed")),
        killed: None,
    }
}

#[test]
fn exit_status_from_code() {
    assert!(ExitStatusData::from_code(Some(0)).success);
    assert!(!ExitStatusData::from_code(Some(2)).success);
    assert!(!ExitStatusData::from_code(None).success);
}

#[test]
fn kill_decision_by_pattern() {
    let ok = Ok(ExitStatusData::from_code(Some(0)));
    let failed = Ok(ExitStatusData::from_code(Some(3)));
    let errored: Result<ExitStatusData, String> = Err(String::from("gone"));

    assert!(!kill_decision(&KillBehavior::Nothing, &ok));
    assert!(kill_decision(&KillBehavior::WhenAnyExited, &ok));

    let on_success = KillBehavior::WhenAnyExitedWithStatus(ExitStatusPattern::Success);
    assert!(kill_decision(&on_success, &ok));
    assert!(!kill_decision(&on_success, &failed));
    assert!(!kill_decision(&on_success, &errored));

    let on_failure = KillBehavior::WhenAnyExitedWithStatus(ExitStatusPattern::Failed);
    assert!(!kill_decision(&on_failure, &ok));
    assert!(kill_decision(&on_failure, &failed));
    // a failed wait counts as a failure, by design
    assert!(kill_decision(&on_failure, &errored));

    let on_code = KillBehavior::WhenAnyExitedWithStatus(ExitStatusPattern::StatusCode(3));
    assert!(kill_decision(&on_code, &failed));
    assert!(!kill_decision(&on_code, &ok));
    assert!(!kill_decision(&on_code, &errored));
}

#[test]
fn echo_pair_without_kill_policy() {
    // two commands, no kill policy: the first exit keeps the policy task
    // listening, the second stops it, nobody is broadcast to
    let behavior = KillBehavior::Nothing;
    let first = stopped(Some(0));
    let (action, count) = policy_step(&behavior, Some(&first), 0, 2);
    assert_eq!(action, PolicyAction::ContinueListening);
    assert_eq!(count, 1);

    let second = stopped(Some(0));
    let (action, count) = policy_step(&behavior, Some(&second), count, 2);
    assert_eq!(action, PolicyAction::StopListening);
    assert_eq!(count, 2);

    let report = CommandSystemSimpleReport::from_success_flags(&vec![true, true]);
    assert_eq!(report.command_count_total, 2);
    assert_eq!(report.command_count_success, 2);
    assert_eq!(report.command_count_failed(), 0);
}

#[test]
fn when_any_exited_kills_the_rest() {
    // the first exit of two triggers the broadcast
    let behavior = KillBehavior::WhenAnyExited;
    let first = stopped(Some(0));
    let (action, count) = policy_step(&behavior, Some(&first), 0, 2);
    assert_eq!(action, PolicyAction::BroadcastExitAndStop);
    assert_eq!(count, 1);
}

#[test]
fn when_any_failed_ignores_success() {
    // a successful exit does not trigger the kill; the run ends only when
    // the other command finishes on its own
    let behavior = KillBehavior::WhenAnyExitedWithStatus(ExitStatusPattern::Failed);
    let ok_exit = stopped(Some(0));
    let (action, count) = policy_step(&behavior, Some(&ok_exit), 0, 2);
    assert_eq!(action, PolicyAction::ContinueListening);

    let natural = stopped(Some(0));
    let (action, _) = policy_step(&behavior, Some(&natural), count, 2);
    assert_eq!(action, PolicyAction::StopListening);
}

#[test]
fn when_any_failed_reacts_to_wait_errors() {
    let behavior = KillBehavior::WhenAnyExitedWithStatus(ExitStatusPattern::Failed);
    let errored = wait_failed();
    let (action, _) = policy_step(&behavior, Some(&errored), 0, 3);
    assert_eq!(action, PolicyAction::BroadcastExitAndStop);
}

#[test]
fn external_kill_all_always_broadcasts() {
    let behavior = KillBehavior::Nothing;
    let (action, count) = policy_step::<(), ()>(&behavior, None, 1, 5);
    assert_eq!(action, PolicyAction::BroadcastSignalAndStop);
    assert_eq!(count, 1);
}

#[test]
fn single_command_fleet_stops_without_broadcast() {
    let behavior = KillBehavior::WhenAnyExited;
    let only = stopped(Some(0));
    let (action, _) = policy_step(&behavior, Some(&only), 0, 1);
    assert_eq!(action, PolicyAction::StopListening);
}

#[test]
fn killer_delivers_at_most_once() {
    let mut killer = CommandKiller::new();
    let (first, sent) = killer.kill(true);
    assert_eq!(first, KillResult::SentSuccess);
    assert!(sent);

    let (second, sent) = killer.kill(true);
    assert_eq!(second, KillResult::AlreadySent);
    assert!(!sent);

    let mut late = CommandKiller::new();
    let (gone, sent) = late.kill(false);
    assert_eq!(gone, KillResult::AlreadyExited);
    assert!(!sent);
}

#[test]
fn start_kill_outcomes_are_classified() {
    let killed = classify_start_kill::<()>(Ok(()), KillCommandReason::MainProcessGotSignal);
    assert!(matches!(killed, KillJoinHandleFinalStatus::Killed(_)));

    let raced = classify_start_kill::<()>(
        Err(StartKillError::ChildAlreadyGone),
        KillCommandReason::MainProcessGotSignal,
    );
    assert!(matches!(
        raced,
        KillJoinHandleFinalStatus::AlreadyExited(_)
    ));

    let failed = classify_start_kill::<()>(
        Err(StartKillError::Other(String::from("no permission"))),
        KillCommandReason::MainProcessGotSignal,
    );
    assert!(matches!(
        failed,
        KillJoinHandleFinalStatus::FailedToKill { .. }
    ));
}

#[test]
fn child_state_transitions() {
    let state: CommandState<u32, u32> = CommandState::Spawned { data: 7 };
    assert!(state.should_broadcast());
    let state = state.observe_exit(Ok(ExitStatusData::from_code(Some(0))), None);
    assert!(!state.should_broadcast());
    match state {
        CommandState::Stopped(record) => {
            assert_eq!(record.data, 7);
            assert!(record.killed.is_none());
        }
        _ => panic!("expected a stopped child"),
    }
}

#[test]
fn report_counts_failures() {
    let report = CommandSystemSimpleReport::from_success_flags(&vec![true, false, true, false]);
    assert_eq!(report.command_count_total, 4);
    assert_eq!(report.command_count_success, 2);
    assert_eq!(report.command_count_failed(), 2);
}
