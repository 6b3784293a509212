//! The fleet scheduler's decisions: which exits trigger a fleet-wide kill,
//! when the policy task stops listening, and how a run configuration turns
//! into the invocations the spawn layer starts.

use vstd::prelude::*;

use crate::config::{
    label_text_spec, lemma_label_text_len, CommandConfig, CommandInvocation, ExitStatusPattern,
    KillBehavior,
};
use crate::label::{label_display_spec, marker_len, Label};

use super::command::{CommandStopped, ExitStatusData};
use super::kill::CommandKiller;

verus! {

/// A command's payload through the default logging plugin: its label.
#[derive(Debug, Clone)]
pub struct LabeledCommandData {
    pub label: Label,
}

/// The part of a spawned command that other tasks hold on to: the payload
/// and the kill capability.
pub struct SharedCommandSpawned<T> {
    pub data: T,
    pub killer: CommandKiller,
}

/// Whether an exit status matches a pattern.  A failed wait counts as a
/// failure: `Failed` holds for it, while `Success` and a status code never
/// match it.
pub open spec fn pattern_matches_spec(
    pattern: ExitStatusPattern,
    status: Result<ExitStatusData, String>,
) -> bool {
    match pattern {
        ExitStatusPattern::Success => status matches Ok(s) && s.success,
        ExitStatusPattern::Failed => !(status matches Ok(s) && s.success),
        ExitStatusPattern::StatusCode(c) => status matches Ok(s) && s.code == Some(c),
    }
}

/// Whether one child's exit triggers a fleet-wide kill under a policy.
pub open spec fn kill_decision_spec(
    behavior: KillBehavior,
    status: Result<ExitStatusData, String>,
) -> bool {
    match behavior {
        KillBehavior::Nothing => false,
        KillBehavior::WhenAnyExited => true,
        KillBehavior::WhenAnyExitedWithStatus(p) => pattern_matches_spec(p, status),
    }
}

/// Whether one child's exit triggers a fleet-wide kill under a policy.
pub fn kill_decision(behavior: &KillBehavior, status: &Result<ExitStatusData, String>) -> (b:
    bool)
    ensures
        b == kill_decision_spec(*behavior, *status),
{
    match behavior {
        KillBehavior::Nothing => false,
        KillBehavior::WhenAnyExited => true,
        KillBehavior::WhenAnyExitedWithStatus(p) => match p {
            ExitStatusPattern::Success => match status {
                Ok(s) => s.success,
                Err(_) => false,
            },
            ExitStatusPattern::Failed => match status {
                Ok(s) => !s.success,
                Err(_) => true,
            },
            ExitStatusPattern::StatusCode(c) => match status {
                Ok(s) => match s.code {
                    Some(actual) => actual == *c,
                    None => false,
                },
                Err(_) => false,
            },
        },
    }
}

/// What the policy task does after one mailbox message.
#[derive(Debug, PartialEq, Eq, Structural, Clone, Copy)]
pub enum PolicyAction {
    /// Keep reading the mailbox.
    ContinueListening,
    /// Every child has been observed: stop without killing anyone.
    StopListening,
    /// Kill every still-running child because one exit matched the policy,
    /// then stop.
    BroadcastExitAndStop,
    /// Kill every still-running child because the supervisor was told to,
    /// then stop.
    BroadcastSignalAndStop,
}

/// The policy task's reaction to one mailbox message: an exit is counted
/// first and, once every child has been seen, listening stops; before
/// that, an exit matching the policy triggers the broadcast.  A kill-all
/// request always triggers the broadcast.
pub open spec fn policy_action_spec(
    behavior: KillBehavior,
    message: Option<Result<ExitStatusData, String>>,
    exited_before: int,
    total: int,
) -> PolicyAction {
    match message {
        None => PolicyAction::BroadcastSignalAndStop,
        Some(status) => {
            if exited_before + 1 >= total {
                PolicyAction::StopListening
            } else if kill_decision_spec(behavior, status) {
                PolicyAction::BroadcastExitAndStop
            } else {
                PolicyAction::ContinueListening
            }
        },
    }
}

/// The exit-status view of one mailbox message.
pub open spec fn message_status_view<T, R>(
    message: Option<&CommandStopped<T, R>>,
) -> Option<Result<ExitStatusData, String>> {
    match message {
        Some(m) => Some(m.exit_status),
        None => None,
    }
}

/// One step of the policy task: reacts to a mailbox message (`Some` for a
/// child's exit, `None` for an external kill-all request) and returns the
/// action together with the updated exit count.
pub fn policy_step<T, R>(
    behavior: &KillBehavior,
    message: Option<&CommandStopped<T, R>>,
    exited_before: usize,
    total: usize,
) -> (r: (PolicyAction, usize))
    requires
        message is Some ==> exited_before < total,
    ensures
        r.0 == policy_action_spec(
            *behavior,
            message_status_view(message),
            exited_before as int,
            total as int,
        ),
        r.1 == exited_before + (if message is Some {
            1int
        } else {
            0int
        }),
{
    match message {
        None => (PolicyAction::BroadcastSignalAndStop, exited_before),
        Some(m) => {
            let exited = exited_before + 1;
            if exited >= total {
                (PolicyAction::StopListening, exited)
            } else if kill_decision(behavior, &m.exit_status) {
                (PolicyAction::BroadcastExitAndStop, exited)
            } else {
                (PolicyAction::ContinueListening, exited)
            }
        },
    }
}

/// Whether the policy task, fed these messages in order, stops listening
/// before running out of them.
pub open spec fn policy_stops_within(
    behavior: KillBehavior,
    messages: Seq<Option<Result<ExitStatusData, String>>>,
    exited: int,
    total: int,
) -> bool
    decreases messages.len(),
{
    if messages.len() == 0 {
        false
    } else {
        let action = policy_action_spec(behavior, messages[0], exited, total);
        if action == PolicyAction::ContinueListening {
            policy_stops_within(
                behavior,
                messages.drop_first(),
                exited + (if messages[0] is Some {
                    1int
                } else {
                    0int
                }),
                total,
            )
        } else {
            true
        }
    }
}

/// When every child eventually exits, the policy task terminates: fed the
/// children's exit messages, it stops listening by the time the last one
/// has been observed.
pub proof fn lemma_policy_stops_once_all_exited(
    behavior: KillBehavior,
    messages: Seq<Option<Result<ExitStatusData, String>>>,
    exited: int,
    total: int,
)
    requires
        0 <= exited < total,
        exited + messages.len() >= total,
        forall|i: int| 0 <= i < messages.len() ==> (#[trigger] messages[i]) is Some,
    ensures
        policy_stops_within(behavior, messages, exited, total),
    decreases messages.len(),
{
    let action = policy_action_spec(behavior, messages[0], exited, total);
    if action == PolicyAction::ContinueListening {
        lemma_policy_stops_once_all_exited(behavior, messages.drop_first(), exited + 1, total);
    }
}

/// Under the idle policy no exit ever triggers a kill: the policy task only
/// keeps listening or stops once every child has been seen.
pub proof fn lemma_policy_without_behavior_never_broadcasts(
    message: Result<ExitStatusData, String>,
    exited: int,
    total: int,
)
    ensures
        policy_action_spec(KillBehavior::Nothing, Some(message), exited, total)
            == PolicyAction::ContinueListening || policy_action_spec(
            KillBehavior::Nothing,
            Some(message),
            exited,
            total,
        ) == PolicyAction::StopListening,
{
}

/// Under `WhenAnyExited` the very first exit of a fleet of two or more
/// triggers the broadcast that kills the rest.
pub proof fn lemma_policy_when_any_exited_broadcasts_first(
    message: Result<ExitStatusData, String>,
    total: int,
)
    requires
        total >= 2,
    ensures
        policy_action_spec(KillBehavior::WhenAnyExited, Some(message), 0, total)
            == PolicyAction::BroadcastExitAndStop,
{
}

/// An external kill-all request always triggers the broadcast, whatever the
/// policy and however many children have exited.
pub proof fn lemma_policy_signal_always_broadcasts(
    behavior: KillBehavior,
    exited: int,
    total: int,
)
    ensures
        policy_action_spec(behavior, None, exited, total) == PolicyAction::BroadcastSignalAndStop,
{
}

/// What building one command of the fleet yields: its plain invocation,
/// with the top-level environment ahead of the command's own, and its label
/// formatted to the fleet's width.
pub open spec fn is_built_invocation(
    out: (CommandInvocation, LabeledCommandData),
    cmd: CommandConfig,
    max_label_length: int,
    inherited: Seq<(String, String)>,
) -> bool {
    &&& out.0.program == cmd.program
    &&& (cmd.args matches Some(a) ==> out.0.args == a)
    &&& (cmd.args is None ==> out.0.args@.len() == 0)
    &&& out.0.cwd == cmd.cwd
    &&& out.0.envs@ == inherited + (match cmd.envs {
        Some(o) => o@,
        None => Seq::empty(),
    })
    &&& out.1.label.label@ == label_text_spec(cmd)
    &&& out.1.label.display_view() == label_display_spec(label_text_spec(cmd), max_label_length)
}

/// Whether one command's label can be formatted to the width: the
/// truncation marker must not be wider than the limit itself, which can
/// only fail for a limit below three.
fn label_fits(cmd: &CommandConfig, max_label_length: usize) -> (b: bool)
    ensures
        b == (label_text_spec(*cmd).len() > max_label_length ==> marker_len(
            label_text_spec(*cmd).len() as int,
            max_label_length as int,
        ) <= max_label_length),
{
    if max_label_length >= 3 {
        return true;
    }
    proof {
        lemma_label_text_len(*cmd);
    }
    let base = cmd.label_length_capped();
    let text_len = {
        let mut empty_args = false;
        if cmd.label.is_none() {
            if let Some(a) = &cmd.args {
                if a.len() == 0 {
                    empty_args = true;
                }
            }
        }
        if empty_args {
            if base == usize::MAX {
                base
            } else {
                base + 1
            }
        } else {
            base
        }
    };
    proof {
        if label_text_spec(*cmd).len() <= usize::MAX {
            assert(text_len == label_text_spec(*cmd).len());
        } else {
            assert(text_len == usize::MAX);
        }
    }
    text_len <= 2 * max_label_length
}

/// Whether every command's label can be formatted to the width: this
/// decides the precondition of [`build_invocations`] ahead of the call.
pub fn labels_fit_width(commands: &Vec<CommandConfig>, max_label_length: usize) -> (b: bool)
    ensures
        b == (forall|i: int|
            0 <= i < commands@.len() ==> (label_text_spec(#[trigger] commands@[i]).len()
                > max_label_length ==> marker_len(
                label_text_spec(commands@[i]).len() as int,
                max_label_length as int,
            ) <= max_label_length)),
{
    let n = commands.len();
    let mut i: usize = 0;
    while i < n
        invariant
            i <= n,
            n == commands@.len(),
            forall|k: int|
                0 <= k < i ==> (label_text_spec(#[trigger] commands@[k]).len()
                    > max_label_length ==> marker_len(
                    label_text_spec(commands@[k]).len() as int,
                    max_label_length as int,
                ) <= max_label_length),
        decreases n - i,
    {
        if !label_fits(&commands[i], max_label_length) {
            return false;
        }
        i = i + 1;
    }
    true
}

/// Turns the fleet's command descriptors into the invocations the spawn
/// layer starts, pairing each with its formatted label.
pub fn build_invocations(
    commands: Vec<CommandConfig>,
    max_label_length: usize,
    envs: Option<&Vec<(String, String)>>,
) -> (r: Vec<(CommandInvocation, LabeledCommandData)>)
    requires
        forall|i: int|
            0 <= i < commands@.len() ==> (label_text_spec(#[trigger] commands@[i]).len()
                > max_label_length ==> marker_len(
                label_text_spec(commands@[i]).len() as int,
                max_label_length as int,
            ) <= max_label_length),
    ensures
        r@.len() == commands@.len(),
        forall|i: int|
            0 <= i < r@.len() ==> is_built_invocation(
                #[trigger] r@[i],
                commands@[i],
                max_label_length as int,
                match envs {
                    Some(e) => e@,
                    None => Seq::empty(),
                },
            ),
{
    let mut commands = commands;
    let ghost all = commands@;
    let mut out: Vec<(CommandInvocation, LabeledCommandData)> = Vec::new();
    while commands.len() > 0
        invariant
            out@.len() + commands@.len() == all.len(),
            commands@ =~= all.skip(out@.len() as int),
            forall|i: int|
                0 <= i < all.len() ==> (label_text_spec(#[trigger] all[i]).len()
                    > max_label_length ==> marker_len(
                    label_text_spec(all[i]).len() as int,
                    max_label_length as int,
                ) <= max_label_length),
            forall|i: int|
                0 <= i < out@.len() ==> is_built_invocation(
                    #[trigger] out@[i],
                    all[i],
                    max_label_length as int,
                    match envs {
                        Some(e) => e@,
                        None => Seq::empty(),
                    },
                ),
        decreases commands@.len(),
    {
        let cmd = commands.remove(0);
        proof {
            assert(cmd == all[out@.len() as int]);
        }
        let (invocation, label_text) = cmd.into_invocation_and_label(envs);
        let label = Label::from_label(label_text, max_label_length);
        out.push((invocation, LabeledCommandData { label }));
        proof {
            assert(commands@ =~= all.skip(out@.len() as int));
        }
    }
    out
}

/// Which children an exiting command's coordinator signals in the
/// thread-based runner: every other command, or every command when the
/// trigger was external.
pub fn should_kill_command(command_id: usize, exited_command_id: Option<usize>) -> (b: bool)
    ensures
        b == (match exited_command_id {
            Some(e) => command_id != e,
            None => true,
        }),
{
    match exited_command_id {
        Some(e) => command_id != e,
        None => true,
    }
}

} // verus!
