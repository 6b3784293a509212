//! Per-child records and the per-child state machine, over plain values: an
//! exit status is its success flag and optional code, an operating-system
//! error its rendered message.

use vstd::prelude::*;

verus! {

/// A child's exit status as plain values.  On the platforms this engine
/// runs on, success means an exit code of zero; a child without a code was
/// ended by a signal and did not succeed.
#[derive(Debug, Clone, Copy)]
pub struct ExitStatusData {
    pub success: bool,
    pub code: Option<i32>,
}

impl ExitStatusData {
    /// The status a reported exit code stands for.
    pub fn from_code(code: Option<i32>) -> (r: Self)
        ensures
            r.code == code,
            r.success == (code == Some(0i32)),
    {
        let success = match code {
            Some(c) => c == 0,
            None => false,
        };
        ExitStatusData { success, code }
    }
}

/// Why a child is asked to die.
pub enum KillCommandReason<T> {
    OtherCommandExited(Box<CommandStopped<T, T>>),
    MainProcessGotSignal,
}

/// How a kill request ended for one child, recorded next to its exit.
pub enum KillJoinHandleFinalStatus<T> {
    SenderDisconnected,
    Killed(KillCommandReason<T>),
    FailedToKill { reason: KillCommandReason<T>, error: String },
    AlreadyExited(CommandAlreadyExitedKind<T>),
    UnexpectedAlreadyKilled,
}

/// Why a kill found nothing left to kill.
pub enum CommandAlreadyExitedKind<T> {
    SelfExited,
    ProcessExited(KillCommandReason<T>),
}

/// The terminal summary of one child's life.
pub struct CommandStopped<T, R> {
    pub data: T,
    pub exit_status: Result<ExitStatusData, String>,
    pub killed: Option<KillJoinHandleFinalStatus<R>>,
}

impl<T, R> CommandStopped<T, R> {
    /// Swaps the payload out, handing back the old one.
    pub fn with_data<S>(self, new_data: S) -> (r: (T, CommandStopped<S, R>))
        ensures
            r.0 == self.data,
            r.1.data == new_data,
            r.1.exit_status == self.exit_status,
            r.1.killed == self.killed,
    {
        let Self { data, exit_status, killed } = self;
        (data, CommandStopped { data: new_data, exit_status, killed })
    }
}

/// What the platform said when a kill was started.
pub enum StartKillError {
    /// The platform reported invalid input or permission denied: the child
    /// had already exited when the kill arrived.
    ChildAlreadyGone,
    /// Any other operating-system failure, rendered.
    Other(String),
}

/// Classifies the immediate result of starting a kill, as it is recorded in
/// the child's terminal summary: a clean start means the child was killed,
/// a child that beat the kill to its exit is noted as such, and any other
/// failure keeps its message.
pub fn classify_start_kill<T>(
    result: Result<(), StartKillError>,
    kill_reason: KillCommandReason<T>,
) -> (r: KillJoinHandleFinalStatus<T>)
    ensures
        result is Ok ==> (r matches KillJoinHandleFinalStatus::Killed(reason) && reason
            == kill_reason),
        result matches Err(StartKillError::ChildAlreadyGone) ==> (r
            matches KillJoinHandleFinalStatus::AlreadyExited(k) && k
            matches CommandAlreadyExitedKind::ProcessExited(reason) && reason == kill_reason),
        result matches Err(StartKillError::Other(m)) ==> (r
            matches KillJoinHandleFinalStatus::FailedToKill { reason, error } && reason
            == kill_reason && error == m),
{
    match result {
        Ok(()) => KillJoinHandleFinalStatus::Killed(kill_reason),
        Err(StartKillError::ChildAlreadyGone) => KillJoinHandleFinalStatus::AlreadyExited(
            CommandAlreadyExitedKind::ProcessExited(kill_reason),
        ),
        Err(StartKillError::Other(error)) => KillJoinHandleFinalStatus::FailedToKill {
            reason: kill_reason,
            error,
        },
    }
}

/// The per-child state the scheduler tracks: transient while being swapped,
/// spawned, or terminally stopped.  A spawn failure is recorded as a stop
/// whose exit status carries the error.
pub enum CommandState<T, R> {
    Processing,
    Spawned { data: T },
    Stopped(Box<CommandStopped<T, R>>),
}

impl<T, R> CommandState<T, R> {
    /// Whether a fleet-wide kill should reach this child: only one still
    /// running is signalled.
    pub fn should_broadcast(&self) -> (b: bool)
        ensures
            b == (self is Spawned),
    {
        match self {
            CommandState::Spawned { .. } => true,
            _ => false,
        }
    }

    /// The transition a child's coordinator performs when the child exits:
    /// a spawned child moves to `Stopped`, carrying its payload into the
    /// record.  Exiting in any other state is a programming error, ruled
    /// out here instead of a runtime panic.
    pub fn observe_exit(
        self,
        exit_status: Result<ExitStatusData, String>,
        killed: Option<KillJoinHandleFinalStatus<R>>,
    ) -> (r: Self)
        requires
            self is Spawned,
        ensures
            r matches CommandState::Stopped(record) && record.data == self->Spawned_data
                && record.exit_status == exit_status && record.killed == killed,
    {
        match self {
            CommandState::Spawned { data } => CommandState::Stopped(
                Box::new(CommandStopped { data, exit_status, killed }),
            ),
            _ => {
                proof {
                    assert(false);
                }
                CommandState::Processing
            },
        }
    }
}

} // verus!
