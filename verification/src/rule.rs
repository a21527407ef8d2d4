//! Rules: nodes of a tree, each with a predicate, three actions and children.

use crate::context::ContextView;
use crate::hooks::{changes_any, tests_any, Hooks};
use vstd::prelude::*;

pub mod best_first_rule;
pub mod chain_rule;

pub use crate::context::{ContextValue, RuleContext};
pub use crate::engine::Engine;
pub use crate::error::{RuleError, RuleResult};
pub use crate::hooks::{EvalFn, ExecuteFn};
pub use crate::rule::best_first_rule::BestFirstRule;
pub use crate::rule::chain_rule::{ChainRule, ChainRuleBuilder};
pub use crate::runner::best_first_rule_runner::BestFirstRuleRunner;
pub use crate::runner::chain_rule_runner::ChainRuleRunner;
pub use crate::runner::RuleRunner;

verus! {

/// A node of a rule tree, as a traversal sees it.
///
/// What a rule does to a context is stated as relations between the contents
/// of the context before, its contents after, and the outcome.
pub trait Rule {
    /// `outcome` is a possible result of this rule's predicate on a context that holds `ctx`.
    spec fn evaluates(&self, ctx: ContextView, outcome: RuleResult<bool>) -> bool;

    /// This rule's own actions may turn a context that holds `before` into
    /// one that holds `after` and end with `outcome`.
    spec fn executes(
        &self,
        before: ContextView,
        after: ContextView,
        outcome: RuleResult<()>,
    ) -> bool;

    /// What this rule does with its children once its own actions have run:
    /// going on from a context that holds `before` may leave it holding
    /// `after` and end with `outcome`.
    spec fn descends(
        &self,
        before: ContextView,
        after: ContextView,
        outcome: RuleResult<bool>,
    ) -> bool;

    /// Asks the predicate whether this rule applies. The context is not changed.
    fn evaluate(&self, context: &RuleContext) -> (outcome: RuleResult<bool>)
        ensures
            self.evaluates(context@, outcome),
    ;

    /// Runs this rule's own actions, without asking the predicate and without
    /// going to the children.
    fn execute(&self, context: &mut RuleContext) -> (outcome: RuleResult<()>)
        ensures
            self.executes(old(context)@, final(context)@, outcome),
    ;

    /// Goes on to the children, as the flavor of this rule says.
    fn descend(&self, context: &mut RuleContext) -> (outcome: RuleResult<bool>)
        ensures
            self.descends(old(context)@, final(context)@, outcome),
    ;

    /// Fires this rule: asks the predicate and, where the rule applies, runs
    /// its actions and goes on to its children. `Ok(false)`: the rule did not
    /// apply, and nothing was run.
    ///
    /// What is promised is `fires`, written out.
    fn fire(&self, context: &mut RuleContext) -> (outcome: RuleResult<bool>)
        ensures
            exists|e: RuleResult<bool>| #[trigger]
                self.evaluates(old(context)@, e) && if e != Ok::<bool, RuleError>(true) {
                    final(context)@ == old(context)@ && outcome == e
                } else {
                    exists|mid: ContextView, done: RuleResult<()>| #[trigger]
                        self.executes(old(context)@, mid, done) && match done {
                            Err(x) => final(context)@ == mid && outcome == Err::<bool, RuleError>(
                                x,
                            ),
                            Ok(_) => self.descends(mid, final(context)@, outcome),
                        }
                },
    {
        let e = self.evaluate(context);
        match e {
            Ok(true) => {},
            _ => {
                return e;
            },
        }
        match self.execute(context) {
            Err(x) => Err(x),
            Ok(_) => self.descend(context),
        }
    }
}

/// Firing `rule` on a context that holds `before` may leave it holding
/// `after` and end with `outcome`.
///
/// The predicate is asked first. Where it fails or says no, that is the
/// outcome and the context stays as it was. Where it says yes, the rule's own
/// actions run; their error, if any, is the outcome. After that the rule goes
/// on to its children.
pub open spec fn fires<R: Rule + ?Sized>(
    rule: &R,
    before: ContextView,
    after: ContextView,
    outcome: RuleResult<bool>,
) -> bool {
    exists|e: RuleResult<bool>| #[trigger]
        rule.evaluates(before, e) && if e != Ok::<bool, RuleError>(true) {
            after == before && outcome == e
        } else {
            exists|mid: ContextView, done: RuleResult<()>| #[trigger]
                rule.executes(before, mid, done) && match done {
                    Err(x) => after == mid && outcome == Err::<bool, RuleError>(x),
                    Ok(_) => rule.descends(mid, after, outcome),
                }
        }
}

/// What a parent reports once a rule it committed to has been fired: the
/// rule's error, or else that the parent itself fired.
pub open spec fn settled(fired: RuleResult<bool>) -> RuleResult<bool> {
    if fired is Err {
        fired
    } else {
        Ok(true)
    }
}

/// Firing the rules `kids[from..]` one after the other, from a context that
/// holds `before`, may leave it holding `after` and end with `outcome`. Each
/// rule starts from the context that the one before it left. The first rule
/// that fails ends the run with its error; otherwise the outcome is `Ok(true)`.
pub open spec fn fires_each(
    kids: Seq<Box<dyn Rule>>,
    from: int,
    before: ContextView,
    after: ContextView,
    outcome: RuleResult<bool>,
) -> bool
    decreases kids.len() - from,
{
    if from < 0 || from >= kids.len() {
        after == before && outcome == Ok::<bool, RuleError>(true)
    } else {
        exists|mid: ContextView, fired: RuleResult<bool>| #[trigger]
            fires(&*kids[from], before, mid, fired) && if fired is Err {
                after == mid && outcome == fired
            } else {
                fires_each(kids, from + 1, mid, after, outcome)
            }
    }
}

/// Fires every rule of `kids`, in order, and stops at the first that fails.
pub fn fire_each(kids: &[Box<dyn Rule>], context: &mut RuleContext) -> (outcome: RuleResult<bool>)
    ensures
        fires_each(kids@, 0, old(context)@, final(context)@, outcome),
{
    let ghost start = context@;
    let mut i: usize = 0;
    while i < kids.len()
        invariant
            i <= kids.len(),
            start == old(context)@,
            forall|after: ContextView, outcome: RuleResult<bool>|
                fires_each(kids@, i as int, context@, after, outcome) ==> fires_each(
                    kids@,
                    0,
                    start,
                    after,
                    outcome,
                ),
        decreases kids.len() - i,
    {
        let ghost here = context@;
        let fired = kids[i].fire(context);
        assert(fires(&*kids@[i as int], here, context@, fired));
        if fired.is_err() {
            assert(fires_each(kids@, i as int, here, context@, fired));
            return fired;
        }
        assert(forall|after: ContextView, outcome: RuleResult<bool>|
            fires_each(kids@, i + 1, context@, after, outcome) ==> fires_each(
                kids@,
                i as int,
                here,
                after,
                outcome,
            ));
        i = i + 1;
    }
    Ok(true)
}

/// A rule of the default flavor: it fires every child, and holds as many as it is given.
pub struct BaseRule {
    children: Vec<Box<dyn Rule>>,
    hooks: Hooks,
}

impl BaseRule {
    /// The hooks of this rule.
    pub closed spec fn hooks(&self) -> Hooks {
        self.hooks
    }

    /// The children of this rule, in the order in which they were added.
    pub closed spec fn kids(&self) -> Seq<Box<dyn Rule>> {
        self.children@
    }

    /// A rule that always applies, does nothing and has no children.
    pub fn new() -> (rule: Self)
        ensures
            rule.kids() == Seq::<Box<dyn Rule>>::empty(),
            rule.hooks().is_unset(),
    {
        BaseRule { children: Vec::new(), hooks: Hooks::new() }
    }

    /// Makes `f` the predicate of this rule.
    pub fn set_eval_fn<F>(&mut self, f: F) where F: Fn(&RuleContext) -> RuleResult<bool> + 'static
        requires
            tests_any(f),
        ensures
            final(self).hooks().tests_with(old(self).hooks(), f),
            final(self).kids() == old(self).kids(),
    {
        self.hooks.set_eval_fn(f);
    }

    /// Makes `f` the action that runs before the main action.
    pub fn set_pre_execute_fn<F>(&mut self, f: F) where
        F: Fn(&mut RuleContext) -> RuleResult<()> + 'static,

        requires
            changes_any(f),
        ensures
            final(self).hooks().prepares_with(old(self).hooks(), f),
            final(self).kids() == old(self).kids(),
    {
        self.hooks.set_pre_execute_fn(f);
    }

    /// Makes `f` the main action.
    pub fn set_execute_fn<F>(&mut self, f: F) where
        F: Fn(&mut RuleContext) -> RuleResult<()> + 'static,

        requires
            changes_any(f),
        ensures
            final(self).hooks().works_with(old(self).hooks(), f),
            final(self).kids() == old(self).kids(),
    {
        self.hooks.set_execute_fn(f);
    }

    /// Makes `f` the action that runs after the main action.
    pub fn set_post_execute_fn<F>(&mut self, f: F) where
        F: Fn(&mut RuleContext) -> RuleResult<()> + 'static,

        requires
            changes_any(f),
        ensures
            final(self).hooks().concludes_with(old(self).hooks(), f),
            final(self).kids() == old(self).kids(),
    {
        self.hooks.set_post_execute_fn(f);
    }

    /// The children, in the order in which they were added.
    pub fn children(&self) -> (kids: &[Box<dyn Rule>])
        ensures
            kids@ == self.kids(),
    {
        self.children.as_slice()
    }

    /// The children, to be changed in place.
    pub fn children_mut(&mut self) -> (kids: &mut Vec<Box<dyn Rule>>)
        ensures
            kids@ == old(self).kids(),
            final(self).kids() == final(kids)@,
            final(self).hooks() == old(self).hooks(),
    {
        &mut self.children
    }

    /// Adds `child` behind the children that are there. A rule of this flavor
    /// takes every child.
    pub fn add_child(&mut self, child: Box<dyn Rule>) -> (outcome: RuleResult<()>)
        ensures
            outcome is Ok,
            final(self).kids() == old(self).kids().push(child),
            final(self).hooks() == old(self).hooks(),
    {
        self.children.push(child);
        Ok(())
    }

    /// Adds the rules of `children`, in their order, behind the children that are there.
    pub fn add_children(&mut self, children: Vec<Box<dyn Rule>>) -> (outcome: RuleResult<()>)
        ensures
            outcome is Ok,
            final(self).kids() == old(self).kids() + children@,
            final(self).hooks() == old(self).hooks(),
    {
        let mut rest = children;
        self.children.append(&mut rest);
        Ok(())
    }
}

impl Default for BaseRule {
    fn default() -> (rule: Self)
        ensures
            rule.kids() == Seq::<Box<dyn Rule>>::empty(),
            rule.hooks().is_unset(),
    {
        BaseRule::new()
    }
}

impl Rule for BaseRule {
    open spec fn evaluates(&self, ctx: ContextView, outcome: RuleResult<bool>) -> bool {
        self.hooks().evaluates(ctx, outcome)
    }

    open spec fn executes(
        &self,
        before: ContextView,
        after: ContextView,
        outcome: RuleResult<()>,
    ) -> bool {
        self.hooks().executes(before, after, outcome)
    }

    open spec fn descends(
        &self,
        before: ContextView,
        after: ContextView,
        outcome: RuleResult<bool>,
    ) -> bool {
        fires_each(self.kids(), 0, before, after, outcome)
    }

    fn evaluate(&self, context: &RuleContext) -> (outcome: RuleResult<bool>) {
        self.hooks.evaluate(context)
    }

    fn execute(&self, context: &mut RuleContext) -> (outcome: RuleResult<()>) {
        self.hooks.execute(context)
    }

    fn descend(&self, context: &mut RuleContext) -> (outcome: RuleResult<bool>) {
        fire_each(self.children.as_slice(), context)
    }
}

/// A rule whose predicate can only say no does nothing when it is fired, and
/// reports that it did not apply: none of its actions runs, and none of its
/// children is touched.
pub proof fn lemma_declines<R: Rule + ?Sized>(
    rule: &R,
    before: ContextView,
    after: ContextView,
    outcome: RuleResult<bool>,
)
    requires
        fires(rule, before, after, outcome),
        forall|e: RuleResult<bool>| #[trigger]
            rule.evaluates(before, e) ==> e == Ok::<bool, RuleError>(false),
    ensures
        after == before,
        outcome == Ok::<bool, RuleError>(false),
{
}

} // verus!
