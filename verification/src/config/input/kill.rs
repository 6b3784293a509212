//! The kill policy as configuration sources spell it.

use vstd::prelude::*;

use super::super::{ExitStatusPattern, KillBehavior};

verus! {

/// The keyword form of a kill policy.
#[derive(Debug, Clone, Copy, PartialEq, Eq, Structural)]
pub enum KillBehaviorInputStr {
    Nothing,
    WhenAnyExited,
    WhenAnySucceeded,
    WhenAnyFailed,
}

/// A kill policy as read from a configuration source: a keyword or a bare
/// status code.
#[derive(Debug, Clone, Copy, PartialEq, Eq, Structural)]
pub enum KillBehaviorInput {
    Str(KillBehaviorInputStr),
    WhenAnyExitedWithStatus(i32),
}

/// The policy a configuration value stands for.
pub open spec fn behavior_of_input(val: KillBehaviorInput) -> KillBehavior {
    match val {
        KillBehaviorInput::Str(s) => match s {
            KillBehaviorInputStr::Nothing => KillBehavior::Nothing,
            KillBehaviorInputStr::WhenAnyExited => KillBehavior::WhenAnyExited,
            KillBehaviorInputStr::WhenAnySucceeded => KillBehavior::WhenAnyExitedWithStatus(
                ExitStatusPattern::Success,
            ),
            KillBehaviorInputStr::WhenAnyFailed => KillBehavior::WhenAnyExitedWithStatus(
                ExitStatusPattern::Failed,
            ),
        },
        KillBehaviorInput::WhenAnyExitedWithStatus(s) => KillBehavior::WhenAnyExitedWithStatus(
            ExitStatusPattern::StatusCode(s),
        ),
    }
}

impl KillBehaviorInput {
    /// Normalizes the configuration form into the policy itself.
    pub fn into_behavior(self) -> (r: KillBehavior)
        ensures
            r == behavior_of_input(self),
    {
        match self {
            KillBehaviorInput::Str(val) => match val {
                KillBehaviorInputStr::Nothing => KillBehavior::Nothing,
                KillBehaviorInputStr::WhenAnyExited => KillBehavior::WhenAnyExited,
                KillBehaviorInputStr::WhenAnySucceeded => KillBehavior::WhenAnyExitedWithStatus(
                    ExitStatusPattern::Success,
                ),
                KillBehaviorInputStr::WhenAnyFailed => KillBehavior::WhenAnyExitedWithStatus(
                    ExitStatusPattern::Failed,
                ),
            },
            KillBehaviorInput::WhenAnyExitedWithStatus(s) => KillBehavior::WhenAnyExitedWithStatus(
                ExitStatusPattern::StatusCode(s),
            ),
        }
    }
}

} // verus!
