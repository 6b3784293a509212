//! The normalized description of one command, and the builder that turns it
//! into a plain invocation (program, arguments, working directory, merged
//! environment) plus a display label.

use vstd::prelude::*;

use crate::env::{leading_envs_spec, match_program_with_envs, pair_views};
use crate::text::{push_char, trim_str, trimmed_of};

use super::WindowsCallCmdWithEnv;

verus! {

/// The normalized input to the command builder.
#[derive(Debug)]
pub struct CommandConfig {
    pub program: String,
    pub args: Option<Vec<String>>,
    pub label: Option<String>,
    pub envs: Option<Vec<(String, String)>>,
    pub cwd: Option<String>,
}

/// Options for building a command out of a raw script string.
#[derive(Debug)]
pub struct CommandConfigFromScriptOptions {
    pub windows_call_cmd_with_env: WindowsCallCmdWithEnv,
}

impl Default for CommandConfigFromScriptOptions {
    fn default() -> (r: Self)
        ensures
            r.windows_call_cmd_with_env == WindowsCallCmdWithEnv::Random,
    {
        Self { windows_call_cmd_with_env: WindowsCallCmdWithEnv::Random }
    }
}

/// An operating-system command invocation as plain values: what the spawn
/// layer needs to start a child process.
#[derive(Debug)]
pub struct CommandInvocation {
    pub program: String,
    pub args: Vec<String>,
    pub cwd: Option<String>,
    pub envs: Vec<(String, String)>,
}

/// The first `i` arguments joined with single spaces.
pub open spec fn join_upto(args: Seq<String>, i: int) -> Seq<char>
    decreases i when i <= args.len()
{
    if i <= 0 {
        Seq::empty()
    } else if i == 1 {
        args[0]@
    } else {
        join_upto(args, i - 1) + seq![' '] + args[i - 1]@
    }
}

/// The label a command displays when none was given: the program name, and,
/// when an argument list is present, a space and the space-joined arguments.
pub open spec fn label_text_spec(c: CommandConfig) -> Seq<char> {
    match c.label {
        Some(l) => l@,
        None => match c.args {
            Some(a) => c.program@ + seq![' '] + join_upto(a@, a@.len() as int),
            None => c.program@,
        },
    }
}

/// The length of the first `i` arguments, each counted with one separator.
pub open spec fn args_units(args: Seq<String>, i: int) -> int
    decreases i when i <= args.len()
{
    if i <= 0 {
        0
    } else {
        args_units(args, i - 1) + args[i - 1]@.len() + 1
    }
}

/// The width the command's label takes: the label's own length, or the
/// program length plus one unit per argument.
pub open spec fn label_length_spec(c: CommandConfig) -> int {
    match c.label {
        Some(l) => l@.len() as int,
        None => c.program@.len() + (match c.args {
            Some(a) => args_units(a@, a@.len() as int),
            None => 0,
        }),
    }
}

/// The label width, capped at what a `usize` can hold.
pub open spec fn label_length_capped_spec(c: CommandConfig) -> int {
    if label_length_spec(c) <= usize::MAX {
        label_length_spec(c)
    } else {
        usize::MAX as int
    }
}

proof fn lemma_join_upto_len(args: Seq<String>, i: int)
    requires
        1 <= i <= args.len(),
    ensures
        join_upto(args, i).len() == args_units(args, i) - 1,
    decreases i,
{
    if i == 1 {
        assert(join_upto(args, 1) == args[0]@);
        assert(args_units(args, 1) == args_units(args, 0) + args[0]@.len() + 1);
        assert(args_units(args, 0) == 0);
    } else {
        lemma_join_upto_len(args, i - 1);
    }
}

/// A command whose label derives from an explicitly empty argument list:
/// the one shape whose derived label carries a separator space that the
/// width accounting does not count.
pub open spec fn has_empty_args_label(c: CommandConfig) -> bool {
    &&& c.label is None
    &&& (c.args matches Some(a) && a@.len() == 0)
}

/// How wide the derived label text is, against the width accounting of
/// [`label_length_spec`]: the two agree except for an explicitly empty
/// argument list.
pub proof fn lemma_label_text_len(c: CommandConfig)
    ensures
        !has_empty_args_label(c) ==> label_text_spec(c).len() == label_length_spec(c),
        has_empty_args_label(c) ==> label_text_spec(c).len() == label_length_spec(c) + 1,
{
    if c.label is None {
        if let Some(a) = c.args {
            if a@.len() >= 1 {
                lemma_join_upto_len(a@, a@.len() as int);
            }
        }
    }
}

proof fn lemma_args_units_monotone(args: Seq<String>, i: int)
    requires
        0 <= i <= args.len(),
    ensures
        0 <= args_units(args, i),
        forall|j: int| 0 <= j <= i ==> #[trigger] args_units(args, j) <= args_units(args, i),
    decreases i,
{
    if i > 0 {
        lemma_args_units_monotone(args, i - 1);
    }
}

/// The result of building a command out of a raw script: the leading inline
/// environment assignments become the command's environment, the rest runs
/// under `sh -c`, and the whole trimmed script is the label.
pub open spec fn is_script_config(r: CommandConfig, script: Seq<char>) -> bool {
    let lexed = leading_envs_spec(trimmed_of(script));
    &&& r.program@ == "sh"@
    &&& (r.args matches Some(a) && a@.len() == 2 && a@[0]@ == "-c"@ && a@[1]@ == lexed.1)
    &&& (r.label matches Some(l) && l@ == trimmed_of(script))
    &&& r.cwd is None
    &&& (r.envs is Some <==> lexed.0.len() > 0)
    &&& (r.envs matches Some(es) ==> pair_views(es@) == lexed.0)
}

impl CommandConfig {
    /// Builds a command that runs a raw script under the default shell.  The
    /// script's leading `KEY=VALUE` assignments become the command's
    /// environment; what remains is the single shell argument, and the whole
    /// trimmed script, assignments included, is the label.
    pub fn from_script(script: &str, options: &CommandConfigFromScriptOptions) -> (r:
        CommandConfig)
        ensures
            is_script_config(r, script@),
    {
        let script = trim_str(script);
        let (program, envs) = match_program_with_envs(script.as_str());
        let mut args: Vec<String> = Vec::new();
        args.push("-c".to_owned());
        args.push(program);
        CommandConfig {
            program: "sh".to_owned(),
            args: Some(args),
            label: Some(script),
            envs,
            cwd: None,
        }
    }

    /// A command from a program and an optional argument list, with nothing
    /// else set.
    pub fn from_program_args(program: String, args: Option<Vec<String>>) -> (r: CommandConfig)
        ensures
            r.program == program,
            r.args == args,
            r.label is None,
            r.envs is None,
            r.cwd is None,
    {
        CommandConfig { program, args, label: None, envs: None, cwd: None }
    }

    /// The label width, when it fits the machine's word.
    pub fn label_length(&self) -> (r: usize)
        requires
            label_length_spec(*self) <= usize::MAX,
        ensures
            r == label_length_spec(*self),
    {
        self.label_length_capped()
    }

    /// The label width, capped at `usize::MAX`.
    pub fn label_length_capped(&self) -> (r: usize)
        ensures
            r == label_length_capped_spec(*self),
    {
        match &self.label {
            Some(l) => l.as_str().unicode_len(),
            None => {
                let mut acc: usize = self.program.as_str().unicode_len();
                match &self.args {
                    None => acc,
                    Some(a) => {
                        let n = a.len();
                        let mut i: usize = 0;
                        while i < n
                            invariant
                                i <= n,
                                n == a@.len(),
                                self.label is None,
                                self.args matches Some(ar) && ar@ == a@,
                                acc == if self.program@.len() + args_units(a@, i as int)
                                    <= usize::MAX {
                                    self.program@.len() + args_units(a@, i as int)
                                } else {
                                    usize::MAX as int
                                },
                            decreases n - i,
                        {
                            let l = a[i].as_str().unicode_len();
                            if acc >= usize::MAX - l {
                                acc = usize::MAX;
                            } else {
                                acc = acc + l + 1;
                            }
                            i = i + 1;
                        }
                        proof {
                            lemma_args_units_monotone(a@, a@.len() as int);
                        }
                        acc
                    },
                }
            },
        }
    }

    /// Appends one `(name, value)` pair to the command's environment,
    /// creating the list when none exists yet.
    pub fn env(&mut self, env: (String, String))
        ensures
            final(self).program == old(self).program,
            final(self).args == old(self).args,
            final(self).label == old(self).label,
            final(self).cwd == old(self).cwd,
            final(self).envs matches Some(es) && es@ == (match old(self).envs {
                Some(o) => o@,
                None => Seq::empty(),
            }).push(env),
    {
        match &mut self.envs {
            Some(v) => {
                v.push(env);
            },
            None => {
                proof {
                    assert(Seq::<(String, String)>::empty().push(env) =~= seq![env]);
                }
                self.envs = Some(vec![env]);
            },
        }
    }

    /// Takes the command apart into a plain invocation and its display
    /// label.  The environment lists the inherited pairs first and the
    /// command's own pairs after them, so that later pairs override earlier
    /// ones when applied in order.
    pub fn into_invocation_and_label(self, inherited_envs: Option<&Vec<(String, String)>>) -> (r:
        (CommandInvocation, String))
        ensures
            r.0.program == self.program,
            (self.args matches Some(a) ==> r.0.args == a),
            (self.args is None ==> r.0.args@.len() == 0),
            r.0.cwd == self.cwd,
            r.0.envs@ == (match inherited_envs {
                Some(inh) => inh@,
                None => Seq::empty(),
            }) + (match self.envs {
                Some(own) => own@,
                None => Seq::empty(),
            }),
            r.1@ == label_text_spec(self),
    {
        let CommandConfig { program, args, label, envs, cwd } = self;
        let mut merged: Vec<(String, String)> = Vec::new();
        if let Some(inh) = inherited_envs {
            let n = inh.len();
            let mut i: usize = 0;
            while i < n
                invariant
                    i <= n,
                    n == inh@.len(),
                    merged@ == inh@.subrange(0, i as int),
                decreases n - i,
            {
                let p = &inh[i];
                merged.push((p.0.clone(), p.1.clone()));
                proof {
                    assert(merged@ =~= inh@.subrange(0, i + 1));
                }
                i = i + 1;
            }
            proof {
                assert(inh@.subrange(0, n as int) =~= inh@);
            }
        }
        let ghost merged_inh = merged@;
        let mut own_opt = envs;
        if let Some(mut own) = own_opt {
            let n = own.len();
            let mut i: usize = 0;
            while i < n
                invariant
                    i <= n,
                    n == own@.len(),
                    merged@ == merged_inh + own@.subrange(0, i as int),
                decreases n - i,
            {
                let p = &own[i];
                merged.push((p.0.clone(), p.1.clone()));
                proof {
                    assert(merged@ =~= merged_inh + own@.subrange(0, i + 1));
                }
                i = i + 1;
            }
            proof {
                assert(own@.subrange(0, n as int) =~= own@);
            }
        } else {
            proof {
                assert(merged@ =~= merged_inh + Seq::<(String, String)>::empty());
            }
        }
        let label_text: String = match label {
            Some(l) => l,
            None => {
                match &args {
                    Some(a) => {
                        let mut t = program.clone();
                        push_char(&mut t, ' ');
                        let n = a.len();
                        let mut i: usize = 0;
                        while i < n
                            invariant
                                i <= n,
                                n == a@.len(),
                                t@ == program@ + seq![' '] + join_upto(a@, i as int),
                            decreases n - i,
                        {
                            if i > 0 {
                                push_char(&mut t, ' ');
                            }
                            t.append(a[i].as_str());
                            proof {
                                if i == 0 {
                                    assert(program@ + seq![' '] + join_upto(a@, 0) =~= program@
                                        + seq![' ']);
                                    assert(t@ =~= program@ + seq![' '] + join_upto(a@, 1));
                                } else {
                                    assert(t@ =~= program@ + seq![' '] + (join_upto(a@, i as int)
                                        + seq![' '] + a@[i as int]@));
                                }
                            }
                            i = i + 1;
                        }
                        proof {
                            assert(program@ + seq![' '] + join_upto(a@, 0) =~= program@ + seq![
                                ' ',
                            ]);
                        }
                        t
                    },
                    None => program.clone(),
                }
            },
        };
        let args = match args {
            Some(a) => a,
            None => Vec::new(),
        };
        (CommandInvocation { program, args, cwd, envs: merged }, label_text)
    }
}

} // verus!
