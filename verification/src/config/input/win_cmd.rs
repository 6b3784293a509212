//! Environment-variable indirection for running scripts under `cmd`: a
//! validated variable name, chosen by the operator or drawn at random.

use vstd::prelude::*;

use crate::env::{is_alpha_char, is_name_char};
use crate::text::{chars_of_str, push_char};

verus! {

/// A well-formed environment-variable name: `[A-Za-z][A-Za-z0-9_]*`.
pub open spec fn env_name_ok(s: Seq<char>) -> bool {
    s.len() > 0 && is_alpha_char(s[0]) && (forall|i: int|
        1 <= i < s.len() ==> is_name_char(#[trigger] s[i]))
}

/// The rejected candidate for an environment-variable name.
#[derive(Debug)]
pub struct InvalidEnvName(pub String);

/// A validated environment-variable name.  The only way to make one is
/// [`EnvName::try_from`], so every value satisfies [`env_name_ok`].
#[derive(Debug)]
pub struct EnvName(String);

impl Clone for EnvName {
    fn clone(&self) -> (r: Self) {
        proof {
            use_type_invariant(self);
        }
        EnvName(self.0.clone())
    }
}

impl EnvName {
    #[verifier::type_invariant]
    spec fn wf(self) -> bool {
        env_name_ok(self.0@)
    }

    /// The characters of the name.
    pub closed spec fn chars(&self) -> Seq<char> {
        self.0@
    }

    /// Validates a candidate name.
    pub fn try_from(value: String) -> (r: Result<Self, InvalidEnvName>)
        ensures
            r matches Ok(n) ==> n.chars() == value@ && env_name_ok(value@),
            r matches Err(e) ==> e.0@ == value@ && !env_name_ok(value@),
    {
        if EnvName::check_str(value.as_str()) {
            Ok(Self(value))
        } else {
            Err(InvalidEnvName(value))
        }
    }

    /// The name as a plain string; always well-formed.
    pub fn to_string(self) -> (r: String)
        ensures
            r@ == self.chars(),
            env_name_ok(r@),
    {
        proof {
            use_type_invariant(&self);
        }
        self.0
    }

    /// Whether a string is a well-formed environment-variable name: a letter
    /// followed by letters, digits and underscores.
    pub fn check_str(s: &str) -> (b: bool)
        ensures
            b == env_name_ok(s@),
    {
        let v = chars_of_str(s);
        let n = v.len();
        if n == 0 {
            return false;
        }
        if !crate::env::alpha_char(v[0]) {
            return false;
        }
        let mut i: usize = 1;
        while i < n
            invariant
                1 <= i <= n,
                n == v@.len(),
                v@ == s@,
                forall|k: int| 1 <= k < i ==> is_name_char(#[trigger] v@[k]),
            decreases n - i,
        {
            if !crate::env::name_char(v[i]) {
                return false;
            }
            i = i + 1;
        }
        true
    }
}

/// Relies on rand's `random_range` over the inclusive range `'A'..='Z'`: the
/// sample is uniform over that range, so in particular it lies within it.
#[verifier::external_body]
fn random_uppercase_char() -> (c: char)
    ensures
        0x41 <= c as u32 && c as u32 <= 0x5A,
{
    rand::random_range('A'..='Z')
}

/// A name of eight random uppercase ASCII letters.
pub fn get_random_env_name() -> (r: String)
    ensures
        r@.len() == 8,
        forall|i: int| 0 <= i < 8 ==> is_alpha_char(#[trigger] r@[i]),
{
    let mut r = String::new();
    let mut i: usize = 0;
    while i < 8
        invariant
            i <= 8,
            r@.len() == i,
            forall|k: int| 0 <= k < i ==> is_alpha_char(#[trigger] r@[k]),
        decreases 8 - i,
    {
        let c = random_uppercase_char();
        push_char(&mut r, c);
        i = i + 1;
    }
    r
}

/// How a script is handed to `cmd`: through a random variable name, a chosen
/// one, or directly.
#[derive(Debug, Clone)]
pub enum WindowsCallCmdWithEnv {
    Random,
    EnvName(EnvName),
    Disable,
}

impl Default for WindowsCallCmdWithEnv {
    fn default() -> (r: Self)
        ensures
            r == WindowsCallCmdWithEnv::Random,
    {
        Self::Random
    }
}

impl WindowsCallCmdWithEnv {
    /// The variable name to stash the script in: the chosen name, a fresh
    /// random one under a fixed prefix, or nothing when the indirection is
    /// disabled.  Every name handed out is well-formed.
    pub fn try_into_env_name(self) -> (r: Option<String>)
        ensures
            r is None <==> self is Disable,
            r matches Some(name) ==> env_name_ok(name@),
            self matches WindowsCallCmdWithEnv::EnvName(n) ==> (r matches Some(name) && name@
                == n.chars()),
            self is Random ==> (r matches Some(name) && name@.len() == 23 && name@.subrange(
                0,
                15,
            ) == "RUNCC_WIN_CMD__"@),
    {
        match self {
            Self::Random => {
                let mut name = String::new();
                push_char(&mut name, 'R');
                push_char(&mut name, 'U');
                push_char(&mut name, 'N');
                push_char(&mut name, 'C');
                push_char(&mut name, 'C');
                push_char(&mut name, '_');
                push_char(&mut name, 'W');
                push_char(&mut name, 'I');
                push_char(&mut name, 'N');
                push_char(&mut name, '_');
                push_char(&mut name, 'C');
                push_char(&mut name, 'M');
                push_char(&mut name, 'D');
                push_char(&mut name, '_');
                push_char(&mut name, '_');
                let suffix = get_random_env_name();
                name.append(suffix.as_str());
                proof {
                    assert forall|i: int| 1 <= i < name@.len() implies is_name_char(
                        #[trigger] name@[i],
                    ) by {
                        if i >= 15 {
                            assert(name@[i] == suffix@[i - 15]);
                            assert(is_alpha_char(suffix@[i - 15]));
                        }
                    }
                    reveal_strlit("RUNCC_WIN_CMD__");
                    assert(name@.subrange(0, 15) =~= "RUNCC_WIN_CMD__"@);
                }
                Some(name)
            },
            Self::EnvName(env_name) => Some(env_name.to_string()),
            Self::Disable => None,
        }
    }
}

} // verus!
