//! The decision core of the command supervision engine: the one-shot kill
//! capability, the per-child state machine, the kill-propagation policy, and
//! the final report.  The surrounding task plumbing performs the actions
//! these functions decide on.

mod command;
mod kill;
mod report;
mod system;

pub use command::{
    classify_start_kill, CommandAlreadyExitedKind, CommandState, CommandStopped, ExitStatusData,
    KillCommandReason, KillJoinHandleFinalStatus, StartKillError,
};
pub use kill::{
    kill_sends_count, kill_step_result, kill_step_sends, lemma_kill_at_most_one_send,
    CommandKiller, KillResult,
};
pub use report::{count_true, CommandSystemSimpleReport};
pub use system::{
    build_invocations, is_built_invocation, kill_decision, kill_decision_spec, labels_fit_width,
    lemma_policy_signal_always_broadcasts, lemma_policy_stops_once_all_exited,
    lemma_policy_when_any_exited_broadcasts_first, lemma_policy_without_behavior_never_broadcasts,
    message_status_view, pattern_matches_spec, policy_action_spec, policy_step,
    policy_stops_within, should_kill_command, LabeledCommandData, PolicyAction,
    SharedCommandSpawned,
};
