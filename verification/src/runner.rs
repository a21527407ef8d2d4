//! Runners: each drives one traversal policy over a list of top-level rules.

use crate::context::{ContextView, RuleContext};
use crate::error::RuleResult;
use crate::rule::Rule;
use vstd::prelude::*;

pub mod best_first_rule_runner;
pub mod chain_rule_runner;

verus! {

/// What a run reports of the rule it fired: the rule's error, or else success.
pub open spec fn finished(fired: RuleResult<bool>) -> RuleResult<()> {
    match fired {
        Ok(_) => Ok(()),
        Err(e) => Err(e),
    }
}

/// A traversal policy over top-level rules.
pub trait RuleRunner {
    /// Running `rules` on a context that holds `before` may leave it holding
    /// `after` and end with `outcome`.
    spec fn runs(
        &self,
        rules: Seq<Box<dyn Rule>>,
        before: ContextView,
        after: ContextView,
        outcome: RuleResult<()>,
    ) -> bool;

    /// Runs `rules` on the context.
    fn run(&self, context: &mut RuleContext, rules: &[Box<dyn Rule>]) -> (outcome: RuleResult<()>)
        ensures
            self.runs(rules@, old(context)@, final(context)@, outcome),
    ;
}

} // verus!
