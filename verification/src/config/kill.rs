//! The kill-propagation policy and its textual grammar.

use vstd::prelude::*;

use crate::env::is_digit_char;
use crate::text::{chars_equal_str, chars_of_str};

verus! {

/// Which exit statuses trigger a fleet-wide kill under
/// [`KillBehavior::WhenAnyExitedWithStatus`].
#[derive(Debug, PartialEq, Eq, Structural, Clone, Copy)]
pub enum ExitStatusPattern {
    Success,
    Failed,
    StatusCode(i32),
}

/// What to do when one command of the fleet exits.
#[derive(Debug, PartialEq, Eq, Structural, Clone, Copy)]
pub enum KillBehavior {
    Nothing,
    WhenAnyExited,
    WhenAnyExitedWithStatus(ExitStatusPattern),
}

impl Default for KillBehavior {
    fn default() -> (r: Self)
        ensures
            r == KillBehavior::Nothing,
    {
        KillBehavior::Nothing
    }
}

/// The decimal digits of `s` from index `i` on, folded onto `acc`; `None`
/// when a non-digit appears or the value leaves the `i32` range.
pub open spec fn dec_digits_spec(s: Seq<char>, i: int, acc: int) -> Option<int>
    decreases s.len() - i when 0 <= i <= s.len()
{
    if i >= s.len() {
        Some(acc)
    } else if is_digit_char(s[i]) {
        let acc2 = acc * 10 + (s[i] as u32 - 0x30);
        if acc2 <= i32::MAX + 1 {
            dec_digits_spec(s, i + 1, acc2)
        } else {
            None
        }
    } else {
        None
    }
}

/// The kill policy a string names: one of the four keywords, or a bare
/// decimal `i32` status code.
pub open spec fn policy_of_str(s: Seq<char>) -> Option<KillBehavior> {
    if s == "None"@ {
        Some(KillBehavior::Nothing)
    } else if s == "WhenAnyExited"@ {
        Some(KillBehavior::WhenAnyExited)
    } else if s == "WhenAnySucceeded"@ {
        Some(KillBehavior::WhenAnyExitedWithStatus(ExitStatusPattern::Success))
    } else if s == "WhenAnyFailed"@ {
        Some(KillBehavior::WhenAnyExitedWithStatus(ExitStatusPattern::Failed))
    } else if s.len() > 0 && s[0] == '-' {
        match dec_digits_spec(s, 1, 0) {
            Some(v) => {
                if s.len() > 1 && !(s.len() > 2 && s[1] == '0') && v <= i32::MAX + 1 {
                    Some(
                        KillBehavior::WhenAnyExitedWithStatus(
                            ExitStatusPattern::StatusCode((-v) as i32),
                        ),
                    )
                } else {
                    None
                }
            },
            None => None,
        }
    } else {
        match dec_digits_spec(s, 0, 0) {
            Some(v) => {
                if s.len() > 0 && !(s.len() > 1 && s[0] == '0') && v <= i32::MAX {
                    Some(KillBehavior::WhenAnyExitedWithStatus(ExitStatusPattern::StatusCode(v as i32)))
                } else {
                    None
                }
            },
            None => None,
        }
    }
}

impl KillBehavior {
    /// Parses the kill-policy grammar: `None`, `WhenAnyExited`,
    /// `WhenAnySucceeded`, `WhenAnyFailed`, or a bare decimal status code
    /// without leading zeros.  The rejected input is handed back in the
    /// error.
    pub fn from_str(s: &str) -> (r: Result<KillBehavior, String>)
        ensures
            r matches Ok(k) ==> policy_of_str(s@) == Some(k),
            r is Err <==> policy_of_str(s@) is None,
            r matches Err(e) ==> e@ == s@,
    {
        proof {
            reveal_strlit("None");
            reveal_strlit("WhenAnyExited");
            reveal_strlit("WhenAnySucceeded");
            reveal_strlit("WhenAnyFailed");
        }
        let v = chars_of_str(s);
        if chars_equal_str(&v, "None") {
            Ok(KillBehavior::Nothing)
        } else if chars_equal_str(&v, "WhenAnyExited") {
            Ok(KillBehavior::WhenAnyExited)
        } else if chars_equal_str(&v, "WhenAnySucceeded") {
            Ok(KillBehavior::WhenAnyExitedWithStatus(ExitStatusPattern::Success))
        } else if chars_equal_str(&v, "WhenAnyFailed") {
            Ok(KillBehavior::WhenAnyExitedWithStatus(ExitStatusPattern::Failed))
        } else if v.len() > 0 && v[0] == '-' {
            match dec_digits(&v, 1) {
                Some(value) => {
                    if v.len() > 1 && !(v.len() > 2 && v[1] == '0') && value <= 0x8000_0000u64 {
                        let code: i32 = if value == 0x8000_0000u64 {
                            i32::MIN
                        } else {
                            -((value as i32))
                        };
                        Ok(KillBehavior::WhenAnyExitedWithStatus(ExitStatusPattern::StatusCode(
                            code,
                        )))
                    } else {
                        Err(s.to_owned())
                    }
                },
                None => Err(s.to_owned()),
            }
        } else {
            match dec_digits(&v, 0) {
                Some(value) => {
                    if v.len() > 0 && !(v.len() > 1 && v[0] == '0') && value <= i32::MAX as u64 {
                        Ok(KillBehavior::WhenAnyExitedWithStatus(ExitStatusPattern::StatusCode(
                            value as i32,
                        )))
                    } else {
                        Err(s.to_owned())
                    }
                },
                None => Err(s.to_owned()),
            }
        }
    }
}

/// Folds the decimal digits `v[from..]`, refusing values past `i32::MAX + 1`
/// (the magnitude of `i32::MIN`).
fn dec_digits(v: &Vec<char>, from: usize) -> (r: Option<u64>)
    requires
        from <= v@.len(),
    ensures
        r matches Some(val) ==> dec_digits_spec(v@, from as int, 0) == Some(val as int) && val
            <= i32::MAX + 1,
        r is None ==> dec_digits_spec(v@, from as int, 0) is None,
        dec_digits_spec(v@, from as int, 0) matches Some(x) ==> r == Some(x as u64),
{
    let n = v.len();
    let mut i = from;
    let mut acc: u64 = 0;
    loop
        invariant
            from <= i <= n,
            n == v@.len(),
            acc <= i32::MAX + 1,
            dec_digits_spec(v@, from as int, 0) == dec_digits_spec(v@, i as int, acc as int),
        decreases n - i,
    {
        if i >= n {
            return Some(acc);
        }
        let c = v[i];
        let u = c as u32;
        if 0x30 <= u && u <= 0x39 {
            let acc2: u64 = acc * 10 + (u - 0x30) as u64;
            if acc2 <= 0x8000_0000u64 {
                acc = acc2;
                i = i + 1;
            } else {
                return None;
            }
        } else {
            return None;
        }
    }
}

} // verus!
