//! The launcher configuration and the merge of command-line overrides.
//!
//! A [`Config`] holds the command path, the argument list, a map from
//! variable name to [`EnvRule`] (keys unique), and the detach flag. It is
//! built from the configuration file, then mutated once by
//! [`override_config_with_args`], and read-only afterwards.

use vstd::prelude::*;

use crate::rules::{EnvRule, RuleModel};

verus! {

/// The mathematical model of the rule map: name/rule pairs in insertion order.
pub type EnvModel = Seq<(Seq<char>, RuleModel)>;

/// The names in `m` are pairwise distinct.
pub open spec fn env_keys_unique(m: EnvModel) -> bool {
    forall|i: int, j: int| 0 <= i < j < m.len() ==> m[i].0 != m[j].0
}

/// The rule for `name` in `m`: the first pair with that name, if any.
/// With unique names the first match is the only one.
pub open spec fn env_lookup(m: EnvModel, name: Seq<char>) -> Option<RuleModel>
    decreases m.len(),
{
    if m.len() == 0 {
        None
    } else if m[0].0 == name {
        Some(m[0].1)
    } else {
        env_lookup(m.drop_first(), name)
    }
}

proof fn lemma_env_keys_unique_drop_first(m: EnvModel)
    requires
        env_keys_unique(m),
        m.len() > 0,
    ensures
        env_keys_unique(m.drop_first()),
{
    assert forall|i: int, j: int| 0 <= i < j < m.drop_first().len() implies m.drop_first()[i].0
        != m.drop_first()[j].0 by {
        assert(m[i + 1].0 != m[j + 1].0);
    }
}

proof fn lemma_env_lookup_update(m: EnvModel, i: int, p: (Seq<char>, RuleModel))
    requires
        env_keys_unique(m),
        0 <= i < m.len(),
        p.0 == m[i].0,
    ensures
        env_keys_unique(m.update(i, p)),
        env_lookup(m.update(i, p), p.0) == Some(p.1),
        forall|n: Seq<char>| n != p.0 ==> env_lookup(m.update(i, p), n) == env_lookup(m, n),
    decreases m.len(),
{
    let mu = m.update(i, p);
    assert forall|a: int, b: int| 0 <= a < b < mu.len() implies mu[a].0 != mu[b].0 by {
        assert(mu[a].0 == m[a].0 && mu[b].0 == m[b].0);
    }
    if i == 0 {
        assert(mu[0] == p);
        assert(mu.drop_first() =~= m.drop_first());
        assert forall|n: Seq<char>| n != p.0 implies env_lookup(mu, n) == env_lookup(m, n) by {
            assert(env_lookup(mu, n) == env_lookup(mu.drop_first(), n));
            assert(env_lookup(m, n) == env_lookup(m.drop_first(), n));
        }
    } else {
        assert(mu[0] == m[0]);
        assert(m[0].0 != m[i].0);
        assert(mu.drop_first() =~= m.drop_first().update(i - 1, p));
        lemma_env_keys_unique_drop_first(m);
        lemma_env_lookup_update(m.drop_first(), i - 1, p);
        assert(env_lookup(mu, p.0) == env_lookup(mu.drop_first(), p.0));
        assert forall|n: Seq<char>| n != p.0 implies env_lookup(mu, n) == env_lookup(m, n) by {
            if n == m[0].0 {
                assert(env_lookup(mu, n) == Some(mu[0].1));
                assert(env_lookup(m, n) == Some(m[0].1));
            } else {
                assert(env_lookup(mu, n) == env_lookup(mu.drop_first(), n));
                assert(env_lookup(m, n) == env_lookup(m.drop_first(), n));
            }
        }
    }
}

proof fn lemma_env_lookup_push(m: EnvModel, p: (Seq<char>, RuleModel))
    requires
        env_keys_unique(m),
        forall|j: int| 0 <= j < m.len() ==> m[j].0 != p.0,
    ensures
        env_keys_unique(m.push(p)),
        env_lookup(m.push(p), p.0) == Some(p.1),
        forall|n: Seq<char>| n != p.0 ==> env_lookup(m.push(p), n) == env_lookup(m, n),
    decreases m.len(),
{
    let mp = m.push(p);
    assert forall|a: int, b: int| 0 <= a < b < mp.len() implies mp[a].0 != mp[b].0 by {
        if b < m.len() {
            assert(m[a].0 != m[b].0);
        } else {
            assert(mp[b] == p && mp[a] == m[a]);
        }
    }
    if m.len() == 0 {
        assert(mp[0] == p);
        assert forall|n: Seq<char>| n != p.0 implies env_lookup(mp, n) == env_lookup(m, n) by {
            assert(mp.drop_first() =~= Seq::<(Seq<char>, RuleModel)>::empty());
            assert(env_lookup(mp, n) == env_lookup(mp.drop_first(), n));
        }
    } else {
        assert(mp[0] == m[0]);
        assert(mp.drop_first() =~= m.drop_first().push(p));
        lemma_env_keys_unique_drop_first(m);
        lemma_env_lookup_push(m.drop_first(), p);
        assert(env_lookup(mp, p.0) == env_lookup(mp.drop_first(), p.0));
        assert forall|n: Seq<char>| n != p.0 implies env_lookup(mp, n) == env_lookup(m, n) by {
            if n == m[0].0 {
                assert(env_lookup(mp, n) == Some(mp[0].1));
                assert(env_lookup(m, n) == Some(m[0].1));
            } else {
                assert(env_lookup(mp, n) == env_lookup(mp.drop_first(), n));
                assert(env_lookup(m, n) == env_lookup(m.drop_first(), n));
            }
        }
    }
}

/// Insert `rule` under `name`, overwriting an existing rule of that name.
///
/// Only the rule for `name` changes: every other name keeps its rule,
/// and the names stay unique.
pub fn env_insert(env: &mut Vec<(String, EnvRule)>, name: String, rule: EnvRule)
    requires
        env_keys_unique(old(env).deep_view()),
    ensures
        env_keys_unique(final(env).deep_view()),
        env_lookup(final(env).deep_view(), name@) == Some(rule@),
        forall|n: Seq<char>| n != name@ ==> env_lookup(final(env).deep_view(), n) == env_lookup(
            old(env).deep_view(),
            n,
        ),
{
    let ghost m0 = env.deep_view();
    match env_find(env, &name) {
        Some(i) => {
            let _ = env.remove(i);
            env.insert(i, (name, rule));
            proof {
                assert(env.deep_view() =~= m0.update(i as int, (name@, rule@)));
                lemma_env_lookup_update(m0, i as int, (name@, rule@));
            }
        },
        None => {
            env.push((name, rule));
            proof {
                assert(env.deep_view() =~= m0.push((name@, rule@)));
                lemma_env_lookup_push(m0, (name@, rule@));
            }
        },
    }
}

/// The position of the first pair named `name`, if one exists.
fn env_find(env: &Vec<(String, EnvRule)>, name: &String) -> (r: Option<usize>)
    ensures
        r matches Some(i) ==> i < env.len() && env.deep_view()[i as int].0 == name@
            && (forall|j: int| 0 <= j < i ==> env.deep_view()[j].0 != name@),
        r is None ==> forall|j: int|
            0 <= j < env.deep_view().len() ==> env.deep_view()[j].0 != name@,
{
    let mut i: usize = 0;
    while i < env.len()
        invariant
            i <= env.len(),
            forall|j: int| 0 <= j < i ==> env.deep_view()[j].0 != name@,
        decreases env.len() - i,
    {
        if env[i].0 == *name {
            return Some(i);
        }
        i = i + 1;
    }
    None
}

/// The entry contains a `=`, so a name/value split is possible.
pub open spec fn is_entry(s: Seq<char>) -> bool {
    s.contains('=')
}

/// The position of the first `=` in `s`.
pub open spec fn eq_index(s: Seq<char>) -> int {
    s.index_of_first('=').unwrap()
}

/// The part of the entry before its first `=`.
pub open spec fn entry_name(s: Seq<char>) -> Seq<char> {
    s.take(eq_index(s))
}

/// The part of the entry after its first `=`.
pub open spec fn entry_value(s: Seq<char>) -> Seq<char> {
    s.skip(eq_index(s) + 1)
}

/// Split a `NAME=VALUE` override at its first `=`; an entry without `=`
/// is malformed and yields nothing.
pub fn split_env_entry(entry: &str) -> (r: Option<(String, String)>)
    ensures
        r is Some <==> is_entry(entry@),
        r matches Some(p) ==> p.0@ == entry_name(entry@) && p.1@ == entry_value(entry@),
{
    let n: usize = entry.unicode_len();
    let mut i: usize = 0;
    while i < n
        invariant
            n == entry@.len(),
            i <= n,
            forall|j: int| 0 <= j < i ==> entry@[j] != '=',
        decreases n - i,
    {
        if entry.get_char(i) == '=' {
            let name = entry.substring_char(0, i);
            let value = entry.substring_char(i + 1, n);
            proof {
                entry@.index_of_first_ensures('=');
                assert(entry@.contains('=')) by {
                    assert(entry@[i as int] == '=');
                }
                let idx = eq_index(entry@);
                assert(idx == i as int) by {
                    if idx < i as int {
                        assert(entry@[idx] != '=');
                    }
                    if idx > i as int {
                        assert(entry@[i as int] != '=');
                    }
                }
                assert(name@ =~= entry_name(entry@));
                assert(value@ =~= entry_value(entry@));
            }
            return Some((name.to_owned(), value.to_owned()));
        }
        i = i + 1;
    }
    proof {
        entry@.index_of_first_ensures('=');
        if entry@.contains('=') {
            let w = choose|k: int| 0 <= k < entry@.len() && entry@[k] == '=';
            assert(entry@[w] != '=');
        }
    }
    None
}


/// The rule that the merge of CLI overrides over `base` leaves for `name`:
/// the last well-formed `NAME=VALUE` entry for `name` wins and yields a
/// simple rule; a name no entry names keeps its rule from `base`.
pub open spec fn merged_env_lookup(
    base: EnvModel,
    entries: Seq<Seq<char>>,
    name: Seq<char>,
) -> Option<RuleModel>
    decreases entries.len(),
{
    if entries.len() == 0 {
        env_lookup(base, name)
    } else if is_entry(entries.last()) && entry_name(entries.last()) == name {
        Some(RuleModel::SimpleRule { value: entry_value(entries.last()) })
    } else {
        merged_env_lookup(base, entries.drop_last(), name)
    }
}

/// Law: a well-formed `NAME=VALUE` override always leaves a simple rule for
/// `NAME`, whatever rule stood in the configuration before - a detailed rule
/// for the same name is discarded, not merged. `k` is the last override
/// entry naming `NAME`.
pub proof fn lemma_cli_env_override_wins(base: EnvModel, entries: Seq<Seq<char>>, k: int)
    requires
        0 <= k < entries.len(),
        is_entry(entries[k]),
        forall|j: int|
            k < j < entries.len() ==> !(is_entry(entries[j]) && entry_name(entries[j])
                == entry_name(entries[k])),
    ensures
        merged_env_lookup(base, entries, entry_name(entries[k])) == Some(
            RuleModel::SimpleRule { value: entry_value(entries[k]) },
        ),
    decreases entries.len(),
{
    if k < entries.len() - 1 {
        assert(entries.drop_last()[k] == entries[k]);
        lemma_cli_env_override_wins(base, entries.drop_last(), k);
    }
}

/// Law: a name that no override entry names keeps its configured rule -
/// variables the command line does not touch are preserved.
pub proof fn lemma_untouched_name_preserved(
    base: EnvModel,
    entries: Seq<Seq<char>>,
    name: Seq<char>,
)
    requires
        forall|j: int|
            0 <= j < entries.len() ==> !(is_entry(entries[j]) && entry_name(entries[j]) == name),
    ensures
        merged_env_lookup(base, entries, name) == env_lookup(base, name),
    decreases entries.len(),
{
    if entries.len() > 0 {
        lemma_untouched_name_preserved(base, entries.drop_last(), name);
    }
}

/// Apply the `NAME=VALUE` override entries to the rule map, in order.
/// Each well-formed entry inserts a simple rule under its name; entries
/// without a `=` are ignored.
pub fn apply_env_overrides(env: &mut Vec<(String, EnvRule)>, entries: &Vec<String>)
    requires
        env_keys_unique(old(env).deep_view()),
    ensures
        env_keys_unique(final(env).deep_view()),
        forall|n: Seq<char>| #[trigger] env_lookup(final(env).deep_view(), n)
            == merged_env_lookup(old(env).deep_view(), entries.deep_view(), n),
{
    let ghost base = env.deep_view();
    let ghost es = entries.deep_view();
    let mut i: usize = 0;
    while i < entries.len()
        invariant
            i <= entries.len(),
            es == entries.deep_view(),
            es.len() == entries.len(),
            env_keys_unique(env.deep_view()),
            forall|n: Seq<char>| #[trigger] env_lookup(env.deep_view(), n)
                == merged_env_lookup(base, es.take(i as int), n),
        decreases entries.len() - i,
    {
        let ghost pre = env.deep_view();
        proof {
            assert(es.take(i + 1 as int).drop_last() =~= es.take(i as int));
            assert(es.take(i + 1 as int).last() == es[i as int]);
        }
        match split_env_entry(entries[i].as_str()) {
            Some(pair) => {
                let (name, value) = pair;
                let ghost nm = name@;
                let ghost vl = value@;
                env_insert(env, name, EnvRule::Simple(value));
                proof {
                    assert forall|n: Seq<char>| #[trigger] env_lookup(env.deep_view(), n)
                        == merged_env_lookup(base, es.take(i + 1 as int), n) by {
                        if n == nm {
                            assert(env_lookup(env.deep_view(), n) == Some(
                                RuleModel::SimpleRule { value: vl },
                            ));
                        } else {
                            assert(env_lookup(env.deep_view(), n) == env_lookup(pre, n));
                        }
                    }
                }
            },
            None => {
                proof {
                    assert forall|n: Seq<char>| #[trigger] env_lookup(env.deep_view(), n)
                        == merged_env_lookup(base, es.take(i + 1 as int), n) by {
                        assert(env_lookup(env.deep_view(), n) == merged_env_lookup(
                            base,
                            es.take(i as int),
                            n,
                        ));
                    }
                }
            },
        }
        i = i + 1;
    }
    proof {
        assert(es.take(entries.len() as int) =~= es);
    }
}

/// Copy a list of argument strings.
pub(crate) fn clone_string_vec(v: &Vec<String>) -> (r: Vec<String>)
    ensures
        r.deep_view() == v.deep_view(),
{
    let mut r: Vec<String> = Vec::new();
    let mut i: usize = 0;
    while i < v.len()
        invariant
            i <= v.len(),
            r.deep_view() =~= v.deep_view().take(i as int),
        decreases v.len() - i,
    {
        let c = v[i].clone();
        let ghost cv = c@;
        let ghost rd0 = r.deep_view();
        proof {
            assert(cv == v.deep_view()[i as int]);
        }
        proof {
            assert(r.deep_view().len() == i);
            assert(r@.len() == i);
        }
        r.push(c);
        proof {
            assert forall|j: int| 0 <= j < i + 1 implies r.deep_view()[j] == v.deep_view().take(
                i + 1 as int,
            )[j] by {
                if j < i {
                    assert(r.deep_view()[j] == rd0[j]);
                } else {
                    assert(r.deep_view()[j] == cv);
                }
            }
            assert(r.deep_view() =~= v.deep_view().take(i + 1 as int));
        }
        i = i + 1;
    }
    proof {
        assert(v.deep_view().take(v.len() as int) =~= v.deep_view());
    }
    r
}

/// The launcher configuration: command path (empty means unset), argument
/// list, rule map, and detach flag.
pub struct Config {
    pub command: String,
    pub args: Vec<String>,
    pub env: Vec<(String, EnvRule)>,
    pub detach: bool,
}

impl Config {
    /// The names in the rule map are unique.
    pub open spec fn wf(&self) -> bool {
        env_keys_unique(self.env.deep_view())
    }
}

impl Default for Config {
    /// The all-defaults configuration: no command, no arguments, no rules,
    /// not detached.
    fn default() -> (c: Config)
        ensures
            c.command@ == Seq::<char>::empty(),
            c.args.deep_view() == Seq::<Seq<char>>::empty(),
            c.env.deep_view() == EnvModel::empty(),
            !c.detach,
            c.wf(),
    {
        let c = Config { command: String::new(), args: Vec::new(), env: Vec::new(), detach: false };
        proof {
            assert(c.args.deep_view() =~= Seq::<Seq<char>>::empty());
            assert(c.env.deep_view() =~= EnvModel::empty());
        }
        c
    }
}

/// The command-line overrides, already parsed into plain values: an optional
/// positional command with its positional arguments, the raw `NAME=VALUE`
/// environment entries in order, and the detach flag.
pub struct CliArgs {
    pub command: Option<String>,
    pub args: Vec<String>,
    pub env_overrides: Vec<String>,
    pub detach: bool,
}

/// Merge the command-line overrides into `config`.
///
/// A positional command replaces the configured command and the whole
/// argument list, even when no positional arguments were given; without one,
/// both stay as configured. Each `NAME=VALUE` entry inserts a simple rule,
/// later entries winning; the detach flag can only be switched on.
pub fn override_config_with_args(config: &mut Config, cli: &CliArgs)
    requires
        old(config).wf(),
    ensures
        final(config).wf(),
        cli.command is Some ==> final(config).command@ == cli.command.unwrap()@
            && final(config).args.deep_view() == cli.args.deep_view(),
        cli.command is None ==> final(config).command == old(config).command
            && final(config).args == old(config).args,
        final(config).detach == (old(config).detach || cli.detach),
        forall|n: Seq<char>| #[trigger] env_lookup(final(config).env.deep_view(), n)
            == merged_env_lookup(old(config).env.deep_view(), cli.env_overrides.deep_view(), n),
{
    match &cli.command {
        Some(c) => {
            config.command = c.clone();
            config.args = clone_string_vec(&cli.args);
        },
        None => {},
    }
    apply_env_overrides(&mut config.env, &cli.env_overrides);
    if cli.detach {
        config.detach = true;
    }
}

} // verus!
