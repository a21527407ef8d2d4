//! The best-first flavor: among the children, the first that applies wins.

use crate::context::{ContextView, RuleContext};
use crate::error::{RuleError, RuleResult};
use crate::hooks::{changes_any, tests_any, Hooks};
use crate::rule::{fires, settled, Rule};
use vstd::prelude::*;

verus! {

/// Scanning the rules `kids[from..]` in order and committing to the first
/// that applies, from a context that holds `before`, may leave it holding
/// `after` and end with `outcome`.
///
/// Each rule's predicate is asked in turn, on the unchanged context. A
/// predicate that fails ends the scan with its error. The first rule whose
/// predicate says yes is fired, and nothing after it is looked at. Where no
/// rule applies the context stays as it was, and the outcome is `Ok(true)`.
pub open spec fn commits(
    kids: Seq<Box<dyn Rule>>,
    from: int,
    before: ContextView,
    after: ContextView,
    outcome: RuleResult<bool>,
) -> bool
    decreases kids.len() - from,
{
    if from < 0 || from >= kids.len() {
        after == before && outcome == Ok::<bool, RuleError>(true)
    } else {
        exists|e: RuleResult<bool>| #[trigger]
            kids[from].evaluates(before, e) && match e {
                Err(_) => after == before && outcome == e,
                Ok(false) => commits(kids, from + 1, before, after, outcome),
                Ok(true) => exists|fired: RuleResult<bool>| #[trigger]
                    fires(&*kids[from], before, after, fired) && outcome == settled(fired),
            }
    }
}

/// Fires the first rule of `kids` that applies, and none after it.
pub fn commit_first(kids: &[Box<dyn Rule>], context: &mut RuleContext) -> (outcome: RuleResult<
    bool,
>)
    ensures
        commits(kids@, 0, old(context)@, final(context)@, outcome),
{
    let mut i: usize = 0;
    while i < kids.len()
        invariant
            i <= kids.len(),
            context@ == old(context)@,
            forall|after: ContextView, outcome: RuleResult<bool>|
                commits(kids@, i as int, context@, after, outcome) ==> commits(
                    kids@,
                    0,
                    context@,
                    after,
                    outcome,
                ),
        decreases kids.len() - i,
    {
        let ghost here = context@;
        let e = kids[i].evaluate(context);
        assert(kids@[i as int].evaluates(here, e));
        match e {
            Err(x) => {
                assert(commits(kids@, i as int, here, here, e));
                return Err(x);
            },
            Ok(true) => {
                let fired = kids[i].fire(context);
                assert(fires(&*kids@[i as int], here, context@, fired));
                assert(commits(kids@, i as int, here, context@, settled(fired)));
                return match fired {
                    Err(x) => Err(x),
                    Ok(_) => Ok(true),
                };
            },
            Ok(false) => {
                assert(forall|after: ContextView, outcome: RuleResult<bool>|
                    commits(kids@, i + 1, here, after, outcome) ==> commits(
                        kids@,
                        i as int,
                        here,
                        after,
                        outcome,
                    ));
            },
        }
        i = i + 1;
    }
    Ok(true)
}

/// A rule of the best-first flavor: once its own actions have run it commits
/// to the first child that applies. It holds as many children as it is given.
pub struct BestFirstRule {
    children: Vec<Box<dyn Rule>>,
    hooks: Hooks,
}

impl BestFirstRule {
    /// The hooks of this rule.
    pub closed spec fn hooks(&self) -> Hooks {
        self.hooks
    }

    /// The children of this rule, in the order in which they were added.
    pub closed spec fn kids(&self) -> Seq<Box<dyn Rule>> {
        self.children@
    }

    /// A rule that always applies, does nothing and has no children.
    pub fn new() -> (rule: Self)
        ensures
            rule.kids() == Seq::<Box<dyn Rule>>::empty(),
            rule.hooks().is_unset(),
    {
        BestFirstRule { children: Vec::new(), hooks: Hooks::new() }
    }

    /// Makes `f` the predicate of this rule, and hands the rule back.
    pub fn set_eval_fn<F>(&mut self, f: F) -> (rule: &mut Self) where
        F: Fn(&RuleContext) -> RuleResult<bool> + 'static,

        requires
            tests_any(f),
        ensures
            rule.hooks().tests_with(old(self).hooks(), f),
            rule.kids() == old(self).kids(),
            *final(self) == *final(rule),
    {
        self.hooks.set_eval_fn(f);
        self
    }

    /// Makes `f` the action that runs before the main action, and hands the rule back.
    pub fn set_pre_execute_fn<F>(&mut self, f: F) -> (rule: &mut Self) where
        F: Fn(&mut RuleContext) -> RuleResult<()> + 'static,

        requires
            changes_any(f),
        ensures
            rule.hooks().prepares_with(old(self).hooks(), f),
            rule.kids() == old(self).kids(),
            *final(self) == *final(rule),
    {
        self.hooks.set_pre_execute_fn(f);
        self
    }

    /// Makes `f` the main action, and hands the rule back.
    pub fn set_execute_fn<F>(&mut self, f: F) -> (rule: &mut Self) where
        F: Fn(&mut RuleContext) -> RuleResult<()> + 'static,

        requires
            changes_any(f),
        ensures
            rule.hooks().works_with(old(self).hooks(), f),
            rule.kids() == old(self).kids(),
            *final(self) == *final(rule),
    {
        self.hooks.set_execute_fn(f);
        self
    }

    /// Makes `f` the action that runs after the main action, and hands the rule back.
    pub fn set_post_execute_fn<F>(&mut self, f: F) -> (rule: &mut Self) where
        F: Fn(&mut RuleContext) -> RuleResult<()> + 'static,

        requires
            changes_any(f),
        ensures
            rule.hooks().concludes_with(old(self).hooks(), f),
            rule.kids() == old(self).kids(),
            *final(self) == *final(rule),
    {
        self.hooks.set_post_execute_fn(f);
        self
    }

    /// The children, in the order in which they were added.
    pub fn children(&self) -> (kids: &[Box<dyn Rule>])
        ensures
            kids@ == self.kids(),
    {
        self.children.as_slice()
    }

    /// The children, to be changed in place.
    pub fn children_mut(&mut self) -> (kids: &mut Vec<Box<dyn Rule>>)
        ensures
            kids@ == old(self).kids(),
            final(self).kids() == final(kids)@,
            final(self).hooks() == old(self).hooks(),
    {
        &mut self.children
    }

    /// Adds `child` behind the children that are there. A rule of this flavor
    /// takes every child.
    pub fn add_child(&mut self, child: Box<dyn Rule>) -> (outcome: RuleResult<()>)
        ensures
            outcome is Ok,
            final(self).kids() == old(self).kids().push(child),
            final(self).hooks() == old(self).hooks(),
    {
        self.children.push(child);
        Ok(())
    }

    /// Adds the rules of `children`, in their order, behind the children that are there.
    pub fn add_children(&mut self, children: Vec<Box<dyn Rule>>) -> (outcome: RuleResult<()>)
        ensures
            outcome is Ok,
            final(self).kids() == old(self).kids() + children@,
            final(self).hooks() == old(self).hooks(),
    {
        let mut rest = children;
        self.children.append(&mut rest);
        Ok(())
    }
}

impl Default for BestFirstRule {
    fn default() -> (rule: Self)
        ensures
            rule.kids() == Seq::<Box<dyn Rule>>::empty(),
            rule.hooks().is_unset(),
    {
        BestFirstRule::new()
    }
}

impl Rule for BestFirstRule {
    open spec fn evaluates(&self, ctx: ContextView, outcome: RuleResult<bool>) -> bool {
        self.hooks().evaluates(ctx, outcome)
    }

    open spec fn executes(
        &self,
        before: ContextView,
        after: ContextView,
        outcome: RuleResult<()>,
    ) -> bool {
        self.hooks().executes(before, after, outcome)
    }

    open spec fn descends(
        &self,
        before: ContextView,
        after: ContextView,
        outcome: RuleResult<bool>,
    ) -> bool {
        commits(self.kids(), 0, before, after, outcome)
    }

    fn evaluate(&self, context: &RuleContext) -> (outcome: RuleResult<bool>) {
        self.hooks.evaluate(context)
    }

    fn execute(&self, context: &mut RuleContext) -> (outcome: RuleResult<()>) {
        self.hooks.execute(context)
    }

    fn descend(&self, context: &mut RuleContext) -> (outcome: RuleResult<bool>) {
        commit_first(self.children.as_slice(), context)
    }
}

/// The `k`-th of `kids` is the first that applies on a context that holds
/// `ctx`: the predicate of every rule before it can only say no there, and
/// its own can only say yes.
pub open spec fn first_match(kids: Seq<Box<dyn Rule>>, k: int, ctx: ContextView) -> bool {
    &&& 0 <= k < kids.len()
    &&& forall|j: int, e: RuleResult<bool>|
        0 <= j < k && #[trigger] kids[j].evaluates(ctx, e) ==> e == Ok::<bool, RuleError>(false)
    &&& forall|e: RuleResult<bool>| #[trigger]
        kids[k].evaluates(ctx, e) ==> e == Ok::<bool, RuleError>(true)
}

proof fn lemma_scan_reaches(
    kids: Seq<Box<dyn Rule>>,
    from: int,
    k: int,
    before: ContextView,
    after: ContextView,
    outcome: RuleResult<bool>,
)
    requires
        first_match(kids, k, before),
        0 <= from <= k,
        commits(kids, from, before, after, outcome),
    ensures
        exists|fired: RuleResult<bool>| #[trigger]
            fires(&*kids[k], before, after, fired) && outcome == settled(fired),
    decreases k - from,
{
    let e = choose|e: RuleResult<bool>| #[trigger]
        kids[from].evaluates(before, e) && match e {
            Err(_) => after == before && outcome == e,
            Ok(false) => commits(kids, from + 1, before, after, outcome),
            Ok(true) => exists|fired: RuleResult<bool>| #[trigger]
                fires(&*kids[from], before, after, fired) && outcome == settled(fired),
        };
    if from < k {
        assert(e == Ok::<bool, RuleError>(false));
        lemma_scan_reaches(kids, from + 1, k, before, after, outcome);
    } else {
        assert(e == Ok::<bool, RuleError>(true));
    }
}

/// Best-first commit, among the rules that are scanned: where the `k`-th of
/// `kids` is the first that applies, the scan is the firing of that one rule.
/// The context goes to it as it was, so no rule before it has run anything,
/// and what comes out depends on no rule after it: none of those is
/// evaluated or fired.
pub proof fn lemma_commits_to_first(
    kids: Seq<Box<dyn Rule>>,
    k: int,
    before: ContextView,
    after: ContextView,
    outcome: RuleResult<bool>,
)
    requires
        first_match(kids, k, before),
        commits(kids, 0, before, after, outcome),
    ensures
        exists|fired: RuleResult<bool>| #[trigger]
            fires(&*kids[k], before, after, fired) && outcome == settled(fired),
{
    lemma_scan_reaches(kids, 0, k, before, after, outcome);
}

/// The scan depends on the rules up to the first match only: two lists of
/// rules that agree up to and with the `k`-th, which is the first that
/// applies, are scanned alike, whatever follows in either.
pub proof fn lemma_later_rules_ignored(
    kids: Seq<Box<dyn Rule>>,
    others: Seq<Box<dyn Rule>>,
    k: int,
    before: ContextView,
    after: ContextView,
    outcome: RuleResult<bool>,
)
    requires
        first_match(kids, k, before),
        k < others.len(),
        forall|j: int| 0 <= j <= k ==> kids[j] == others[j],
        commits(kids, 0, before, after, outcome),
    ensures
        commits(others, 0, before, after, outcome),
{
    lemma_scan_agrees(kids, others, 0, k, before, after, outcome);
}

proof fn lemma_scan_agrees(
    kids: Seq<Box<dyn Rule>>,
    others: Seq<Box<dyn Rule>>,
    from: int,
    k: int,
    before: ContextView,
    after: ContextView,
    outcome: RuleResult<bool>,
)
    requires
        first_match(kids, k, before),
        k < others.len(),
        forall|j: int| 0 <= j <= k ==> kids[j] == others[j],
        0 <= from <= k,
        commits(kids, from, before, after, outcome),
    ensures
        commits(others, from, before, after, outcome),
    decreases k - from,
{
    let e = choose|e: RuleResult<bool>| #[trigger]
        kids[from].evaluates(before, e) && match e {
            Err(_) => after == before && outcome == e,
            Ok(false) => commits(kids, from + 1, before, after, outcome),
            Ok(true) => exists|fired: RuleResult<bool>| #[trigger]
                fires(&*kids[from], before, after, fired) && outcome == settled(fired),
        };
    assert(kids[from] == others[from]);
    assert(others[from].evaluates(before, e));
    if from < k {
        assert(e == Ok::<bool, RuleError>(false));
        lemma_scan_agrees(kids, others, from + 1, k, before, after, outcome);
    } else {
        assert(e == Ok::<bool, RuleError>(true));
        let fired = choose|fired: RuleResult<bool>| #[trigger]
            fires(&*kids[from], before, after, fired) && outcome == settled(fired);
        assert(fires(&*others[from], before, after, fired));
    }
}

/// Best-first commit, for the parent: where the `k`-th child is the first
/// that applies in every context that the parent's own actions may leave,
/// firing the parent is this and no more. The parent's predicate is asked;
/// where it says yes the parent's actions run; where they succeed the `k`-th
/// child is fired on the context that they left.
pub proof fn lemma_best_first_commit(
    parent: BestFirstRule,
    k: int,
    before: ContextView,
    after: ContextView,
    outcome: RuleResult<bool>,
)
    requires
        fires(&parent, before, after, outcome),
        forall|mid: ContextView, done: RuleResult<()>| #[trigger]
            parent.executes(before, mid, done) && done is Ok ==> first_match(
                parent.kids(),
                k,
                mid,
            ),
    ensures
        exists|e: RuleResult<bool>| #[trigger]
            parent.evaluates(before, e) && if e != Ok::<bool, RuleError>(true) {
                after == before && outcome == e
            } else {
                exists|mid: ContextView, done: RuleResult<()>| #[trigger]
                    parent.executes(before, mid, done) && match done {
                        Err(x) => after == mid && outcome == Err::<bool, RuleError>(x),
                        Ok(_) => exists|fired: RuleResult<bool>| #[trigger]
                            fires(&*parent.kids()[k], mid, after, fired) && outcome == settled(
                                fired,
                            ),
                    }
            },
{
    let e = choose|e: RuleResult<bool>| #[trigger]
        parent.evaluates(before, e) && if e != Ok::<bool, RuleError>(true) {
            after == before && outcome == e
        } else {
            exists|mid: ContextView, done: RuleResult<()>| #[trigger]
                parent.executes(before, mid, done) && match done {
                    Err(x) => after == mid && outcome == Err::<bool, RuleError>(x),
                    Ok(_) => parent.descends(mid, after, outcome),
                }
        };
    if e == Ok::<bool, RuleError>(true) {
        let (mid, done) = choose|mid: ContextView, done: RuleResult<()>| #[trigger]
            parent.executes(before, mid, done) && match done {
                Err(x) => after == mid && outcome == Err::<bool, RuleError>(x),
                Ok(_) => parent.descends(mid, after, outcome),
            };
        if done is Ok {
            lemma_commits_to_first(parent.kids(), k, mid, after, outcome);
        }
    }
}

} // verus!
