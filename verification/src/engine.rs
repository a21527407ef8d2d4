//! The engine: one entry point for each traversal policy.

use crate::context::RuleContext;
use crate::error::RuleResult;
use crate::rule::Rule;
use crate::runner::best_first_rule_runner::BestFirstRuleRunner;
use crate::runner::chain_rule_runner::ChainRuleRunner;
use crate::runner::RuleRunner;
use vstd::prelude::*;

verus! {

/// Picks the runner for a traversal policy. It holds no state.
pub struct Engine;

impl Engine {
    /// The runner of the best-first policy.
    pub fn best_first_runner() -> (runner: BestFirstRuleRunner)
        ensures
            runner == BestFirstRuleRunner,
    {
        BestFirstRuleRunner
    }

    /// The runner of the chain policy.
    pub fn chain_runner() -> (runner: ChainRuleRunner)
        ensures
            runner == ChainRuleRunner,
    {
        ChainRuleRunner
    }

    /// Runs `rules` best-first: the first of them that applies is fired.
    pub fn execute_best_first(context: &mut RuleContext, rules: &[Box<dyn Rule>]) -> (outcome:
        RuleResult<()>)
        ensures
            BestFirstRuleRunner.runs(rules@, old(context)@, final(context)@, outcome),
    {
        Self::best_first_runner().run(context, rules)
    }

    /// Runs `rules` as a chain: there may be one of them at most.
    pub fn execute_chain(context: &mut RuleContext, rules: &[Box<dyn Rule>]) -> (outcome:
        RuleResult<()>)
        ensures
            ChainRuleRunner.runs(rules@, old(context)@, final(context)@, outcome),
    {
        Self::chain_runner().run(context, rules)
    }
}

} // verus!
