//! The chain runner: one top-level rule, fired as the head of its chain.

use crate::context::{ContextView, RuleContext};
use crate::error::{RuleError, RuleResult};
use crate::rule::{fires, Rule};
use crate::runner::{finished, RuleRunner};
use vstd::prelude::*;
use vstd::string::StringExecFns;

verus! {

/// What the chain runner says when it is handed more than one top-level rule.
pub open spec fn chain_refusal() -> Seq<char> {
    "a chain run takes one top-level rule"@
}

/// Whether `outcome` is the refusal of a list of more than one top-level rule.
pub open spec fn refuses(outcome: RuleResult<()>) -> bool {
    outcome matches Err(RuleError::ExecutionFailed(msg)) && msg@ == chain_refusal()
}

/// Fires the one top-level rule it is given.
pub struct ChainRuleRunner;

impl RuleRunner for ChainRuleRunner {
    /// More than one top-level rule is refused with `ExecutionFailed`, and no
    /// rule is touched. One rule is fired. No rule at all is a run that
    /// succeeds and does nothing.
    open spec fn runs(
        &self,
        rules: Seq<Box<dyn Rule>>,
        before: ContextView,
        after: ContextView,
        outcome: RuleResult<()>,
    ) -> bool {
        if rules.len() > 1 {
            after == before && refuses(outcome)
        } else if rules.len() == 1 {
            exists|fired: RuleResult<bool>| #[trigger]
                fires(&*rules[0], before, after, fired) && outcome == finished(fired)
        } else {
            after == before && outcome == Ok::<(), RuleError>(())
        }
    }

    fn run(&self, context: &mut RuleContext, rules: &[Box<dyn Rule>]) -> (outcome: RuleResult<
        (),
    >) {
        if rules.len() > 1 {
            return Err(
                RuleError::ExecutionFailed(String::from_str("a chain run takes one top-level rule")),
            );
        }
        if rules.len() == 0 {
            return Ok(());
        }
        let ghost before = context@;
        let fired = rules[0].fire(context);
        assert(fires(&*rules@[0], before, context@, fired));
        match fired {
            Ok(_) => Ok(()),
            Err(e) => Err(e),
        }
    }
}

/// The chain runner rejects more than one top-level rule: the run fails with
/// `ExecutionFailed`, and the context is as it was, so nothing was executed.
pub proof fn lemma_many_roots_refused(
    rules: Seq<Box<dyn Rule>>,
    before: ContextView,
    after: ContextView,
    outcome: RuleResult<()>,
)
    requires
        rules.len() >= 2,
        ChainRuleRunner.runs(rules, before, after, outcome),
    ensures
        after == before,
        outcome is Err,
        outcome->Err_0 is ExecutionFailed,
{
}

} // verus!
