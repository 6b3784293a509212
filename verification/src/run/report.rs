//! The final report of one engine run.

use vstd::prelude::*;

verus! {

/// How many of the first `i` flags are set.
pub open spec fn count_true(flags: Seq<bool>, i: int) -> int
    decreases i when i <= flags.len()
{
    if i <= 0 {
        0
    } else {
        count_true(flags, i - 1) + (if flags[i - 1] {
            1int
        } else {
            0int
        })
    }
}

/// The counts an engine run ends with.  The successful count never exceeds
/// the total.
#[derive(Debug, Clone, Copy)]
pub struct CommandSystemSimpleReport {
    pub command_count_total: usize,
    pub command_count_success: usize,
}

impl CommandSystemSimpleReport {
    /// Builds the report from one success flag per command: the total is
    /// the number of commands and the successful count the number of set
    /// flags, so the successful count is bounded by the total.
    pub fn from_success_flags(flags: &Vec<bool>) -> (r: Self)
        ensures
            r.command_count_total == flags@.len(),
            r.command_count_success == count_true(flags@, flags@.len() as int),
            r.command_count_success <= r.command_count_total,
    {
        let n = flags.len();
        let mut success: usize = 0;
        let mut i: usize = 0;
        while i < n
            invariant
                i <= n,
                n == flags@.len(),
                success == count_true(flags@, i as int),
                success <= i,
            decreases n - i,
        {
            if flags[i] {
                success = success + 1;
            }
            i = i + 1;
        }
        CommandSystemSimpleReport { command_count_total: n, command_count_success: success }
    }

    /// How many commands failed.
    pub fn command_count_failed(&self) -> (r: usize)
        requires
            self.command_count_success <= self.command_count_total,
        ensures
            r == self.command_count_total - self.command_count_success,
    {
        self.command_count_total - self.command_count_success
    }
}

} // verus!
