use vstd::prelude::*;
use crate::resolve::EventKeyAliasConfig;
use crate::rule::{rule_select, RuleNode};
use crate::value::JsonValue;

verus! {

/// Runs a corpus of compiled rules over a stream of records.
pub struct Detection {}

/// The indices of the records among `records[..m]` on which `rule` fires,
/// paired with `ri`, in record order.
pub open spec fn rule_hits(rule: RuleNode, ri: int, records: Seq<JsonValue>, aliases: Seq<(String, String)>, m: int) -> Seq<(usize, usize)>
    decreases m,
{
    if m <= 0 {
        Seq::empty()
    } else if rule_select(rule, aliases, records[m - 1]) {
        rule_hits(rule, ri, records, aliases, m - 1).push((ri as usize, (m - 1) as usize))
    } else {
        rule_hits(rule, ri, records, aliases, m - 1)
    }
}

/// Every (rule, record) pair among `rules[..k]` on which the rule fires, rule
/// by rule, records in order within a rule.
pub open spec fn all_hits(rules: Seq<RuleNode>, records: Seq<JsonValue>, aliases: Seq<(String, String)>, k: int) -> Seq<(usize, usize)>
    decreases k,
{
    if k <= 0 {
        Seq::empty()
    } else {
        all_hits(rules, records, aliases, k - 1) + rule_hits(rules[k - 1], k - 1, records, aliases, records.len() as int)
    }
}

impl Detection {
    pub fn new() -> (r: Detection) {
        Detection {}
    }

    /// The (rule index, record index) pairs on which a rule fires.
    pub fn select_matches(&self, rules: &Vec<RuleNode>, records: &Vec<JsonValue>, aliases: &EventKeyAliasConfig) -> (r: Vec<(usize, usize)>)
        ensures
            r@ == all_hits(rules@, records@, aliases.entries@, rules@.len() as int),
    {
        let mut out: Vec<(usize, usize)> = Vec::new();
        let mut i: usize = 0;
        while i < rules.len()
            invariant
                0 <= i <= rules.len(),
                out@ == all_hits(rules@, records@, aliases.entries@, i as int),
            decreases rules.len() - i,
        {
            let ghost before = out@;
            let mut j: usize = 0;
            while j < records.len()
                invariant
                    0 <= i < rules.len(),
                    0 <= j <= records.len(),
                    out@ == before + rule_hits(rules@[i as int], i as int, records@, aliases.entries@, j as int),
                decreases records.len() - j,
            {
                if rules[i].select(aliases, &records[j]) {
                    out.push((i, j));
                }
                j = j + 1;
            }
            i = i + 1;
        }
        out
    }
}

} // verus!
