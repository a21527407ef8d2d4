//! The best-first runner: the first top-level rule that applies is fired.

use crate::context::{ContextView, RuleContext};
use crate::error::{RuleError, RuleResult};
use crate::rule::best_first_rule::{commit_first, commits, first_match, lemma_commits_to_first};
use crate::rule::{fires, settled, Rule};
use crate::runner::{finished, RuleRunner};
use vstd::prelude::*;

verus! {

/// Fires the first of the top-level rules that applies, and looks at none after it.
pub struct BestFirstRuleRunner;

impl RuleRunner for BestFirstRuleRunner {
    /// The top-level rules are scanned as the children of a best-first rule
    /// are. The run succeeds too where no rule applies.
    open spec fn runs(
        &self,
        rules: Seq<Box<dyn Rule>>,
        before: ContextView,
        after: ContextView,
        outcome: RuleResult<()>,
    ) -> bool {
        exists|scanned: RuleResult<bool>| #[trigger]
            commits(rules, 0, before, after, scanned) && outcome == finished(scanned)
    }

    fn run(&self, context: &mut RuleContext, rules: &[Box<dyn Rule>]) -> (outcome: RuleResult<
        (),
    >) {
        let ghost before = context@;
        let scanned = commit_first(rules, context);
        assert(commits(rules@, 0, before, context@, scanned));
        match scanned {
            Ok(_) => Ok(()),
            Err(e) => Err(e),
        }
    }
}

/// Best-first sibling scan: where the `m`-th of the top-level rules is the
/// first that applies, the run is the firing of that one rule on the context
/// as it was handed in. No rule before it runs anything, and no rule after it
/// is evaluated or fired.
pub proof fn lemma_sibling_scan(
    rules: Seq<Box<dyn Rule>>,
    m: int,
    before: ContextView,
    after: ContextView,
    outcome: RuleResult<()>,
)
    requires
        first_match(rules, m, before),
        BestFirstRuleRunner.runs(rules, before, after, outcome),
    ensures
        exists|fired: RuleResult<bool>| #[trigger]
            fires(&*rules[m], before, after, fired) && outcome == finished(fired),
{
    let scanned = choose|scanned: RuleResult<bool>| #[trigger]
        commits(rules, 0, before, after, scanned) && outcome == finished(scanned);
    lemma_commits_to_first(rules, m, before, after, scanned);
    let fired = choose|fired: RuleResult<bool>| #[trigger]
        fires(&*rules[m], before, after, fired) && scanned == settled(fired);
    assert(finished(scanned) == finished(fired));
}

/// Where none of the top-level rules applies, the run succeeds and leaves
/// the context as it was.
pub proof fn lemma_no_sibling_applies(
    rules: Seq<Box<dyn Rule>>,
    before: ContextView,
    after: ContextView,
    outcome: RuleResult<()>,
)
    requires
        forall|j: int, e: RuleResult<bool>|
            0 <= j < rules.len() && #[trigger] rules[j].evaluates(before, e) ==> e == Ok::<
                bool,
                RuleError,
            >(false),
        BestFirstRuleRunner.runs(rules, before, after, outcome),
    ensures
        after == before,
        outcome is Ok,
{
    let scanned = choose|scanned: RuleResult<bool>| #[trigger]
        commits(rules, 0, before, after, scanned) && outcome == finished(scanned);
    lemma_scan_finds_none(rules, 0, before, after, scanned);
}

proof fn lemma_scan_finds_none(
    rules: Seq<Box<dyn Rule>>,
    from: int,
    before: ContextView,
    after: ContextView,
    scanned: RuleResult<bool>,
)
    requires
        0 <= from,
        forall|j: int, e: RuleResult<bool>|
            0 <= j < rules.len() && #[trigger] rules[j].evaluates(before, e) ==> e == Ok::<
                bool,
                RuleError,
            >(false),
        commits(rules, from, before, after, scanned),
    ensures
        after == before,
        scanned == Ok::<bool, RuleError>(true),
    decreases rules.len() - from,
{
    if from < rules.len() {
        let e = choose|e: RuleResult<bool>| #[trigger]
            rules[from].evaluates(before, e) && match e {
                Err(_) => after == before && scanned == e,
                Ok(false) => commits(rules, from + 1, before, after, scanned),
                Ok(true) => exists|fired: RuleResult<bool>| #[trigger]
                    fires(&*rules[from], before, after, fired) && scanned == settled(fired),
            };
        assert(e == Ok::<bool, RuleError>(false));
        lemma_scan_finds_none(rules, from + 1, before, after, scanned);
    }
}

} // verus!
