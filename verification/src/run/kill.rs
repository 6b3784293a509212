//! The one-shot kill capability: why a child is killed, what a kill request
//! reports back, and the take-once discipline that lets at most one message
//! reach the supervisor task.

use vstd::prelude::*;

verus! {

/// What a kill request reports back.
#[derive(Debug, PartialEq, Eq, Structural, Clone, Copy)]
pub enum KillResult {
    SentSuccess,
    AlreadySent,
    AlreadyExited,
}

/// The state of a child's kill capability: whether the single message has
/// been taken already.  The message channel itself lives with the task
/// plumbing; every request is decided through [`CommandKiller::kill`], so
/// the take-once discipline proved here carries over to the channel.
pub struct CommandKiller {
    pub sender_taken: bool,
}

/// What one kill request reports, given the slot state and whether the
/// supervisor task is still listening.
pub open spec fn kill_step_result(taken: bool, listening: bool) -> KillResult {
    if taken {
        KillResult::AlreadySent
    } else if listening {
        KillResult::SentSuccess
    } else {
        KillResult::AlreadyExited
    }
}

/// Whether one kill request delivers a message.
pub open spec fn kill_step_sends(taken: bool, listening: bool) -> bool {
    !taken && listening
}

impl CommandKiller {
    /// A fresh capability whose message is still available.
    pub fn new() -> (r: Self)
        ensures
            !r.sender_taken,
    {
        Self { sender_taken: false }
    }

    /// One kill request.  The first request takes the message: it is
    /// delivered when the supervisor still listens, and reported lost when
    /// it already stopped.  Every later request reports `AlreadySent` and
    /// delivers nothing.
    pub fn kill(&mut self, receiver_listening: bool) -> (r: (KillResult, bool))
        ensures
            final(self).sender_taken,
            r.0 == kill_step_result(old(self).sender_taken, receiver_listening),
            r.1 == kill_step_sends(old(self).sender_taken, receiver_listening),
    {
        if self.sender_taken {
            (KillResult::AlreadySent, false)
        } else {
            self.sender_taken = true;
            if receiver_listening {
                (KillResult::SentSuccess, true)
            } else {
                (KillResult::AlreadyExited, false)
            }
        }
    }
}

/// How many messages a run of kill requests delivers, starting from the
/// given slot state; the request at position `i` finds the supervisor
/// listening exactly when `listening[i]` holds.
pub open spec fn kill_sends_count(taken: bool, listening: Seq<bool>) -> int
    decreases listening.len(),
{
    if listening.len() == 0 {
        0
    } else {
        (if kill_step_sends(taken, listening[0]) {
            1int
        } else {
            0int
        }) + kill_sends_count(true, listening.drop_first())
    }
}

/// However many kill requests race for the slot, at most one message ever
/// reaches the supervisor — none once the slot has been taken.
pub proof fn lemma_kill_at_most_one_send(taken: bool, listening: Seq<bool>)
    ensures
        kill_sends_count(taken, listening) <= 1,
        taken ==> kill_sends_count(taken, listening) == 0,
    decreases listening.len(),
{
    if listening.len() > 0 {
        lemma_kill_at_most_one_send(true, listening.drop_first());
    }
}

} // verus!
