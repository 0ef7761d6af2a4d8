//! Environment-variable rules and their resolution.
//!
//! A rule describes how the child process's value for one environment
//! variable is computed from the launcher's own (inherited) value:
//! a `Simple` rule replaces the value outright, a `Detailed` rule joins
//! `prepend` segments, the inherited value, and `append` segments with a
//! separator, skipping the sections that are empty.
//!
//! Known limitation, kept on purpose: segments are joined without any
//! escaping, so a segment that itself contains the separator is
//! indistinguishable from a section boundary in the resolved value.

use vstd::prelude::*;

verus! {

/// How one environment variable of the child process is computed.
pub enum EnvRule {
    /// Replace the variable with this value; the inherited value is discarded.
    Simple(String),
    /// Compose `prepend` segments, the inherited value, and `append` segments,
    /// joined by `sep`; empty sections contribute nothing, not even a separator.
    Detailed { prepend: Vec<String>, append: Vec<String>, sep: String },
}

/// The mathematical model of an [`EnvRule`]: the same two shapes over
/// sequences of characters.
pub enum RuleModel {
    SimpleRule { value: Seq<char> },
    DetailedRule { prepend: Seq<Seq<char>>, append: Seq<Seq<char>>, sep: Seq<char> },
}

impl View for EnvRule {
    type V = RuleModel;

    open spec fn view(&self) -> RuleModel {
        match self {
            EnvRule::Simple(v) => RuleModel::SimpleRule { value: v@ },
            EnvRule::Detailed { prepend, append, sep } => RuleModel::DetailedRule {
                prepend: prepend.deep_view(),
                append: append.deep_view(),
                sep: sep@,
            },
        }
    }
}

impl DeepView for EnvRule {
    type V = RuleModel;

    open spec fn deep_view(&self) -> RuleModel {
        self.view()
    }
}

/// The segments of `segs` joined with `sep` between neighbours;
/// an empty sequence of segments joins to the empty string.
pub open spec fn join_all(segs: Seq<Seq<char>>, sep: Seq<char>) -> Seq<char>
    decreases segs.len(),
{
    if segs.len() == 0 {
        Seq::empty()
    } else if segs.len() == 1 {
        segs[0]
    } else {
        join_all(segs.drop_last(), sep) + sep + segs.last()
    }
}

/// Append the section `part` to the accumulated value `acc`, inserting `sep`
/// only between two non-empty sides: an empty `part` leaves `acc` unchanged,
/// and an empty `acc` is replaced by `part` without a leading separator.
pub open spec fn glue(acc: Seq<char>, part: Seq<char>, sep: Seq<char>) -> Seq<char> {
    if part.len() == 0 {
        acc
    } else if acc.len() == 0 {
        part
    } else {
        acc + sep + part
    }
}

/// The resolved value of a rule, given the inherited value of the variable
/// (the empty sequence stands for an absent variable).
pub open spec fn resolve_rule(rule: RuleModel, inherited: Seq<char>) -> Seq<char> {
    match rule {
        RuleModel::SimpleRule { value } => value,
        RuleModel::DetailedRule { prepend, append, sep } => glue(
            glue(join_all(prepend, sep), inherited, sep),
            join_all(append, sep),
            sep,
        ),
    }
}

/// Join the segments of `segs` with `sep`.
fn join_segments(segs: &Vec<String>, sep: &str) -> (r: String)
    ensures
        r@ == join_all(segs.deep_view(), sep@),
{
    let mut out = String::new();
    let mut i: usize = 0;
    while i < segs.len()
        invariant
            i <= segs.len(),
            out@ == join_all(segs.deep_view().take(i as int), sep@),
        decreases segs.len() - i,
    {
        if i > 0 {
            out.append(sep);
        }
        out.append(segs[i].as_str());
        proof {
            let dv = segs.deep_view();
            assert(dv.take(i + 1 as int).drop_last() =~= dv.take(i as int));
            assert(dv.take(i + 1 as int).last() == dv[i as int]);
        }
        i = i + 1;
    }
    proof {
        assert(segs.deep_view().take(segs.len() as int) =~= segs.deep_view());
    }
    out
}

/// Resolve `rule` against the inherited value of the variable.
///
/// `inherited` is the launcher's own value for the variable, or the empty
/// string if the variable is not set; the two cases are deliberately
/// indistinguishable.
pub fn resolve(rule: &EnvRule, inherited: &str) -> (r: String)
    ensures
        r@ == resolve_rule(rule@, inherited@),
{
    match rule {
        EnvRule::Simple(v) => v.clone(),
        EnvRule::Detailed { prepend, append, sep } => {
            let mut value = join_segments(prepend, sep.as_str());
            if !inherited.is_empty() {
                if !value.as_str().is_empty() {
                    value.append(sep.as_str());
                }
                value.append(inherited);
            }
            let post = join_segments(append, sep.as_str());
            if !post.as_str().is_empty() {
                if !value.as_str().is_empty() {
                    value.append(sep.as_str());
                }
                value.append(post.as_str());
            }
            value
        }
    }
}

/// Law: a simple rule resolves to its configured value, whatever the
/// inherited value is.
pub proof fn lemma_simple_rule(value: Seq<char>, inherited: Seq<char>)
    ensures
        resolve_rule(RuleModel::SimpleRule { value }, inherited) == value,
{
}

/// Law: a detailed rule with no prepend and no append segments passes a
/// non-empty inherited value through unchanged.
pub proof fn lemma_detailed_passthrough(sep: Seq<char>, inherited: Seq<char>)
    requires
        inherited.len() > 0,
    ensures
        resolve_rule(
            RuleModel::DetailedRule {
                prepend: Seq::empty(),
                append: Seq::empty(),
                sep,
            },
            inherited,
        ) == inherited,
{
}

/// Law: a detailed rule whose prepend and append lists are empty resolves an
/// empty inherited value to the empty string, whatever the separator.
pub proof fn lemma_detailed_all_empty(sep: Seq<char>)
    ensures
        resolve_rule(
            RuleModel::DetailedRule {
                prepend: Seq::empty(),
                append: Seq::empty(),
                sep,
            },
            Seq::<char>::empty(),
        ) == Seq::<char>::empty(),
{
}

/// Law: when the joined prepend segments, the inherited value, and the joined
/// append segments are each non-empty, the resolved value is the three
/// sections in that order with a single separator between neighbours.
pub proof fn lemma_detailed_sections(
    prepend: Seq<Seq<char>>,
    append: Seq<Seq<char>>,
    sep: Seq<char>,
    inherited: Seq<char>,
)
    requires
        join_all(prepend, sep).len() > 0,
        join_all(append, sep).len() > 0,
        inherited.len() > 0,
    ensures
        resolve_rule(RuleModel::DetailedRule { prepend, append, sep }, inherited)
            == join_all(prepend, sep) + sep + inherited + sep + join_all(append, sep),
{
}

} // verus!
