//! Transform rule vocabulary: the phase a rule runs in and the scopes it may
//! be attached to.
use vstd::prelude::*;
use crate::users::string_views;

verus! {

/// The phase of a request/response exchange a transform runs in.
#[derive(Clone, Copy, Debug, PartialEq, Eq, Structural)]
pub enum Phase {
    Request,
    Response,
}

/// Where a transform rule may be configured.
#[derive(Clone, Copy, Debug, PartialEq, Eq, Structural)]
pub enum TransformScope {
    Provider,
    Global,
    ApiKey,
}

/// One configured transform rule: which transform, whether it is on, the
/// phase it runs in, the model globs it is limited to (none = every model),
/// and its configuration as JSON text.
#[derive(Clone, Debug)]
pub struct TransformRuleConfig {
    pub transform: String,
    pub enabled: bool,
    pub phase: Phase,
    pub models: Option<Vec<String>>,
    pub config: String,
}


/// A rule as plain values.
pub open spec fn rule_view(r: TransformRuleConfig) -> (Seq<char>, bool, Phase, Option<Seq<Seq<char>>>, Seq<char>) {
    (
        r.transform@,
        r.enabled,
        r.phase,
        match r.models {
            Some(v) => Some(string_views(v@)),
            None => None,
        },
        r.config@,
    )
}

/// Two rule lists hold the same rules in the same order.
pub open spec fn same_rules(a: Seq<TransformRuleConfig>, b: Seq<TransformRuleConfig>) -> bool {
    a.len() == b.len() && forall|i: int| 0 <= i < a.len() ==> #[trigger] rule_view(a[i]) == rule_view(b[i])
}

fn clone_strings(v: &Vec<String>) -> (c: Vec<String>)
    ensures
        c@ == v@,
{
    let mut c: Vec<String> = Vec::new();
    let mut i: usize = 0;
    while i < v.len()
        invariant
            i <= v@.len(),
            c@ == v@.take(i as int),
        decreases v@.len() - i,
    {
        c.push(v[i].clone());
        i += 1;
        proof {
            assert(c@ =~= v@.take(i as int));
        }
    }
    assert(v@.take(v@.len() as int) =~= v@);
    c
}

fn clone_rule(r: &TransformRuleConfig) -> (c: TransformRuleConfig)
    ensures
        rule_view(c) == rule_view(*r),
{
    TransformRuleConfig {
        transform: r.transform.clone(),
        enabled: r.enabled,
        phase: r.phase,
        models: match &r.models {
            Some(v) => Some(clone_strings(v)),
            None => None,
        },
        config: r.config.clone(),
    }
}

/// A copy of a rule list.
pub fn clone_rules(v: &Vec<TransformRuleConfig>) -> (c: Vec<TransformRuleConfig>)
    ensures
        same_rules(c@, v@),
{
    let mut c: Vec<TransformRuleConfig> = Vec::new();
    let mut i: usize = 0;
    while i < v.len()
        invariant
            i <= v@.len(),
            c@.len() == i,
            forall|t: int| 0 <= t < i ==> #[trigger] rule_view(c@[t]) == rule_view(v@[t]),
        decreases v@.len() - i,
    {
        c.push(clone_rule(&v[i]));
        i += 1;
    }
    c
}

} // verus!
