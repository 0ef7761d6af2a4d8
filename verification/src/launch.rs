//! Building the launch plan for the child process.
//!
//! A [`LaunchPlan`] is everything the spawn needs, already resolved: the
//! command path, the argument list, the per-variable environment overrides
//! (each rule applied to the inherited environment), and the detach flag.
//! Building the plan fails before anything is spawned when no command is
//! configured.

use vstd::prelude::*;

use crate::config::{clone_string_vec, Config};
use crate::rules::{resolve, resolve_rule};

verus! {

/// The inherited environment, as name/value pairs snapshotted from the
/// launcher's own process.
pub type EnvSnapshot = Seq<(Seq<char>, Seq<char>)>;

/// The inherited value of `name` in the snapshot `envs`: the first pair with
/// that name, or the empty sequence when the variable is absent - an absent
/// variable and one set to the empty string are deliberately alike.
pub open spec fn inherited_value(envs: EnvSnapshot, name: Seq<char>) -> Seq<char>
    decreases envs.len(),
{
    if envs.len() == 0 {
        Seq::empty()
    } else if envs[0].0 == name {
        envs[0].1
    } else {
        inherited_value(envs.drop_first(), name)
    }
}

proof fn lemma_inherited_value_at(envs: EnvSnapshot, name: Seq<char>, i: int)
    requires
        0 <= i < envs.len(),
        forall|j: int| 0 <= j < i ==> envs[j].0 != name,
        envs[i].0 == name,
    ensures
        inherited_value(envs, name) == envs[i].1,
    decreases i,
{
    if i > 0 {
        assert forall|j: int| 0 <= j < i - 1 implies envs.drop_first()[j].0 != name by {
            assert(envs[j + 1].0 != name);
        }
        lemma_inherited_value_at(envs.drop_first(), name, i - 1);
    }
}

proof fn lemma_inherited_value_absent(envs: EnvSnapshot, name: Seq<char>)
    requires
        forall|j: int| 0 <= j < envs.len() ==> envs[j].0 != name,
    ensures
        inherited_value(envs, name) == Seq::<char>::empty(),
    decreases envs.len(),
{
    if envs.len() > 0 {
        lemma_inherited_value_absent(envs.drop_first(), name);
    }
}

/// The inherited value of `name`: the first pair of `envs` with that name,
/// or the empty string when there is none.
pub fn lookup_inherited(envs: &Vec<(String, String)>, name: &String) -> (r: String)
    ensures
        r@ == inherited_value(envs.deep_view(), name@),
{
    let mut i: usize = 0;
    while i < envs.len()
        invariant
            i <= envs.len(),
            forall|j: int| 0 <= j < i ==> envs.deep_view()[j].0 != name@,
        decreases envs.len() - i,
    {
        if envs[i].0 == *name {
            let v = envs[i].1.clone();
            proof {
                lemma_inherited_value_at(envs.deep_view(), name@, i as int);
            }
            return v;
        }
        i = i + 1;
    }
    proof {
        lemma_inherited_value_absent(envs.deep_view(), name@);
    }
    String::new()
}

/// Why no launch plan could be built.
#[derive(Debug)]
pub enum LaunchError {
    /// No command was configured, neither in the file nor on the command line.
    MissingCommand,
}

/// Everything the spawn needs: the command, its arguments, the resolved
/// environment overrides, and whether to detach the child.
pub struct LaunchPlan {
    pub command: String,
    pub args: Vec<String>,
    pub env: Vec<(String, String)>,
    pub detach: bool,
}

/// Build the launch plan from the merged configuration and a snapshot of the
/// launcher's own environment.
///
/// Fails with [`LaunchError::MissingCommand`] exactly when the configured
/// command is empty, before any process work. Otherwise the plan carries the
/// command and arguments unchanged, and one resolved value per configured
/// rule, in the rule map's order.
pub fn build_launch_plan(config: &Config, inherited: &Vec<(String, String)>) -> (r: Result<
    LaunchPlan,
    LaunchError,
>)
    ensures
        r is Err <==> config.command@.len() == 0,
        r matches Err(e) ==> e == LaunchError::MissingCommand,
        r matches Ok(p) ==> {
            &&& p.command@ == config.command@
            &&& p.args.deep_view() == config.args.deep_view()
            &&& p.detach == config.detach
            &&& p.env.deep_view().len() == config.env.deep_view().len()
            &&& forall|i: int|
                0 <= i < config.env.deep_view().len() ==> (#[trigger] p.env.deep_view()[i]).0
                    == config.env.deep_view()[i].0 && p.env.deep_view()[i].1 == resolve_rule(
                    config.env.deep_view()[i].1,
                    inherited_value(inherited.deep_view(), config.env.deep_view()[i].0),
                )
        },
{
    if config.command.as_str().is_empty() {
        return Err(LaunchError::MissingCommand);
    }
    let mut envs: Vec<(String, String)> = Vec::new();
    let mut i: usize = 0;
    while i < config.env.len()
        invariant
            i <= config.env.len(),
            envs.deep_view().len() == i,
            forall|j: int|
                0 <= j < i ==> (#[trigger] envs.deep_view()[j]).0 == config.env.deep_view()[j].0
                    && envs.deep_view()[j].1 == resolve_rule(
                    config.env.deep_view()[j].1,
                    inherited_value(inherited.deep_view(), config.env.deep_view()[j].0),
                ),
        decreases config.env.len() - i,
    {
        let name = config.env[i].0.clone();
        let inh = lookup_inherited(inherited, &name);
        let value = resolve(&config.env[i].1, inh.as_str());
        let ghost nv = name@;
        let ghost vv = value@;
        let ghost ed0 = envs.deep_view();
        proof {
            assert(envs.deep_view().len() == i);
            assert(envs@.len() == i);
        }
        envs.push((name, value));
        proof {
            assert forall|j: int| 0 <= j < i + 1 implies (#[trigger] envs.deep_view()[j]).0
                == config.env.deep_view()[j].0 && envs.deep_view()[j].1 == resolve_rule(
                config.env.deep_view()[j].1,
                inherited_value(inherited.deep_view(), config.env.deep_view()[j].0),
            ) by {
                if j < i {
                    assert(envs.deep_view()[j] == ed0[j]);
                } else {
                    assert(envs.deep_view()[j].0 == nv);
                    assert(envs.deep_view()[j].1 == vv);
                }
            }
        }
        i = i + 1;
    }
    Ok(
        LaunchPlan {
            command: config.command.clone(),
            args: clone_string_vec(&config.args),
            env: envs,
            detach: config.detach,
        },
    )
}

/// The launcher's own exit code after waiting for the child: a successful
/// child exit maps to 0; a failing child's exit code is propagated, with -1
/// standing in when the platform reports none.
pub fn exit_code_after_wait(success: bool, code: Option<i32>) -> (r: i32)
    ensures
        success ==> r == 0,
        !success ==> r == (if code is Some {
            code.unwrap()
        } else {
            -1i32
        }),
{
    if success {
        0
    } else {
        match code {
            Some(c) => c,
            None => -1,
        }
    }
}

} // verus!
