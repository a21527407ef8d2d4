//! The four hooks of a rule: a predicate that decides whether the rule
//! applies, and the actions that run before, as and after its work.
//!
//! A hook is code of the host. What it does is known here only as a relation
//! between the contents of the context before the call, the contents after it
//! and the outcome. Every contract of a traversal is stated over these
//! relations, so it holds of hooks that are not deterministic too.

use crate::context::{ContextView, RuleContext};
use crate::error::{RuleError, RuleResult};
use vstd::prelude::*;

verus! {

/// `f` can be called on every context.
pub open spec fn tests_any<F: Fn(&RuleContext) -> RuleResult<bool>>(f: F) -> bool {
    forall|c: &RuleContext| call_requires(f, (c,))
}

/// `f` can be called on every context.
pub open spec fn changes_any<F: Fn(&mut RuleContext) -> RuleResult<()>>(f: F) -> bool {
    forall|m: &mut RuleContext| call_requires(f, (m,))
}

/// `outcome` is a possible result of calling `f` on a context that holds `ctx`.
pub open spec fn yields<F: Fn(&RuleContext) -> RuleResult<bool>>(
    f: F,
    ctx: ContextView,
    outcome: RuleResult<bool>,
) -> bool {
    exists|c: RuleContext| c@ == ctx && #[trigger] call_ensures(f, (&c,), outcome)
}

fn apply_in_place<F: Fn(&mut RuleContext) -> RuleResult<()>>(
    f: &F,
    context: &mut RuleContext,
) -> (outcome: RuleResult<()>)
    requires
        changes_any(*f),
    ensures
        exists|m: &mut RuleContext|
            *m == *old(context) && *final(m) == *final(context) && #[trigger] call_ensures(
                *f,
                (m,),
                outcome,
            ),
{
    f(context)
}

/// Calls `f` on a context that is handed over, and hands the context back
/// together with what `f` returned.
///
/// The contract of this function is what `turns` means: it relates the
/// context that goes in to the one that comes out.
pub fn applied<F: Fn(&mut RuleContext) -> RuleResult<()>>(f: &F, context: RuleContext) -> (r: (
    RuleContext,
    RuleResult<()>,
))
    requires
        changes_any(*f),
    ensures
        exists|m: &mut RuleContext|
            *m == context && *final(m) == r.0 && #[trigger] call_ensures(*f, (m,), r.1),
{
    let mut held = context;
    let outcome = apply_in_place(f, &mut held);
    let ghost after = held;
    let ghost returned = outcome;
    let r = (held, outcome);
    assert(r.0 == after && r.1 == returned);
    r
}

/// Calling `f` on a context that holds `before` may leave it holding `after`
/// and return `outcome`: `applied` may hand back such a context and outcome
/// for such a context.
pub open spec fn turns<F: Fn(&mut RuleContext) -> RuleResult<()>>(
    f: F,
    before: ContextView,
    after: ContextView,
    outcome: RuleResult<()>,
) -> bool {
    exists|c0: RuleContext, c1: RuleContext|
        c0@ == before && c1@ == after && #[trigger] call_ensures(
            applied::<F>,
            (&f, c0),
            (c1, outcome),
        )
}

/// What `turns` says of `f` itself: the call that it speaks of is a call of
/// `f` on a context that holds `before`, which `f` leaves holding `after`.
pub proof fn lemma_turns<F: Fn(&mut RuleContext) -> RuleResult<()>>(
    f: F,
    before: ContextView,
    after: ContextView,
    outcome: RuleResult<()>,
)
    requires
        turns(f, before, after, outcome),
    ensures
        exists|m: &mut RuleContext|
            (*m)@ == before && (*final(m))@ == after && #[trigger] call_ensures(f, (m,), outcome),
{
    let (c0, c1) = choose|c0: RuleContext, c1: RuleContext|
        c0@ == before && c1@ == after && #[trigger] call_ensures(
            applied::<F>,
            (&f, c0),
            (c1, outcome),
        );
    assert(call_ensures(applied::<F>, (&f, c0), (c1, outcome)));
}

/// Calls `g`, so that what `g` may return on these arguments is known of the result.
fn call<F, G>(g: G, f: &F, context: RuleContext) -> (r: (RuleContext, RuleResult<()>)) where
    F: Fn(&mut RuleContext) -> RuleResult<()>,
    G: Fn(&F, RuleContext) -> (RuleContext, RuleResult<()>),

    requires
        call_requires(g, (f, context)),
    ensures
        call_ensures(g, (f, context), r),
{
    g(f, context)
}

/// A fallible test of the context.
pub trait Predicate {
    /// `outcome` is a possible result of the test on a context that holds `ctx`.
    spec fn may_yield(&self, ctx: ContextView, outcome: RuleResult<bool>) -> bool;

    /// Tests the context.
    fn test(&self, context: &RuleContext) -> (outcome: RuleResult<bool>)
        ensures
            self.may_yield(context@, outcome),
    ;
}

/// A fallible change of the context.
pub trait Action {
    /// The action may turn a context that holds `before` into one that holds
    /// `after` and return `outcome`.
    spec fn may_turn(
        &self,
        before: ContextView,
        after: ContextView,
        outcome: RuleResult<()>,
    ) -> bool;

    /// Applies the action to the context.
    fn apply(&self, context: &mut RuleContext) -> (outcome: RuleResult<()>)
        ensures
            self.may_turn(old(context)@, final(context)@, outcome),
    ;
}

/// A closure that can be called on every context, as a `Predicate`.
pub struct FnPredicate<F: Fn(&RuleContext) -> RuleResult<bool>> {
    f: F,
}

impl<F: Fn(&RuleContext) -> RuleResult<bool>> FnPredicate<F> {
    #[verifier::type_invariant]
    spec fn total(&self) -> bool {
        tests_any(self.f)
    }

    /// The closure inside.
    pub closed spec fn inner(&self) -> F {
        self.f
    }

    /// Wraps a closure that accepts every context.
    pub fn new(f: F) -> (p: Self)
        requires
            tests_any(f),
        ensures
            p.inner() == f,
    {
        FnPredicate { f }
    }
}

impl<F: Fn(&RuleContext) -> RuleResult<bool>> Predicate for FnPredicate<F> {
    open spec fn may_yield(&self, ctx: ContextView, outcome: RuleResult<bool>) -> bool {
        yields(self.inner(), ctx, outcome)
    }

    fn test(&self, context: &RuleContext) -> (outcome: RuleResult<bool>) {
        proof {
            use_type_invariant(self);
        }
        (self.f)(context)
    }
}

/// A closure that can be called on every context, as an `Action`.
pub struct FnAction<F: Fn(&mut RuleContext) -> RuleResult<()>> {
    f: F,
}

impl<F: Fn(&mut RuleContext) -> RuleResult<()>> FnAction<F> {
    #[verifier::type_invariant]
    spec fn total(&self) -> bool {
        changes_any(self.f)
    }

    /// The closure inside.
    pub closed spec fn inner(&self) -> F {
        self.f
    }

    /// Wraps a closure that accepts every context.
    pub fn new(f: F) -> (a: Self)
        requires
            changes_any(f),
        ensures
            a.inner() == f,
    {
        FnAction { f }
    }
}

impl<F: Fn(&mut RuleContext) -> RuleResult<()>> Action for FnAction<F> {
    open spec fn may_turn(
        &self,
        before: ContextView,
        after: ContextView,
        outcome: RuleResult<()>,
    ) -> bool {
        turns(self.inner(), before, after, outcome)
    }

    fn apply(&self, context: &mut RuleContext) -> (outcome: RuleResult<()>) {
        proof {
            use_type_invariant(self);
        }
        let mut taken = RuleContext::new();
        core::mem::swap(context, &mut taken);
        let (back, outcome) = call(applied::<F>, &self.f, taken);
        *context = back;
        outcome
    }
}

/// A predicate behind a pointer, whatever it is made of.
pub type EvalFn = Box<dyn Predicate>;

/// An action behind a pointer, whatever it is made of.
pub type ExecuteFn = Box<dyn Action>;

/// What running an optional action does: nothing, with success, where there is none.
pub open spec fn step(
    hook: Option<ExecuteFn>,
    before: ContextView,
    after: ContextView,
    outcome: RuleResult<()>,
) -> bool {
    match hook {
        Some(action) => action.may_turn(before, after, outcome),
        None => after == before && outcome == Ok::<(), RuleError>(()),
    }
}

fn run_step(hook: &Option<ExecuteFn>, context: &mut RuleContext) -> (outcome: RuleResult<()>)
    ensures
        step(*hook, old(context)@, final(context)@, outcome),
{
    match hook {
        Some(action) => action.apply(context),
        None => Ok(()),
    }
}

/// The hooks of one rule. A rule without a predicate always applies, and an
/// action that is not set does nothing.
pub struct Hooks {
    eval_fn: Option<EvalFn>,
    pre_execute_fn: Option<ExecuteFn>,
    execute_fn: Option<ExecuteFn>,
    post_execute_fn: Option<ExecuteFn>,
}

impl Hooks {
    /// The predicate, if one is set.
    pub closed spec fn predicate(&self) -> Option<EvalFn> {
        self.eval_fn
    }

    /// The action that runs first, if one is set.
    pub closed spec fn pre_action(&self) -> Option<ExecuteFn> {
        self.pre_execute_fn
    }

    /// The action that does the rule's work, if one is set.
    pub closed spec fn main_action(&self) -> Option<ExecuteFn> {
        self.execute_fn
    }

    /// The action that runs last, if one is set.
    pub closed spec fn post_action(&self) -> Option<ExecuteFn> {
        self.post_execute_fn
    }

    /// `outcome` is a possible result of the predicate on a context that holds `ctx`.
    pub open spec fn evaluates(&self, ctx: ContextView, outcome: RuleResult<bool>) -> bool {
        match self.predicate() {
            Some(p) => p.may_yield(ctx, outcome),
            None => outcome == Ok::<bool, RuleError>(true),
        }
    }

    /// The three actions, run in order from a context that holds `before`,
    /// may leave it holding `after` and return `outcome`. The first action
    /// that fails ends the run: its error is the outcome, and the context
    /// stays as that action left it.
    pub open spec fn executes(
        &self,
        before: ContextView,
        after: ContextView,
        outcome: RuleResult<()>,
    ) -> bool {
        exists|a: ContextView, first: RuleResult<()>| #[trigger]
            step(self.pre_action(), before, a, first) && if first is Err {
                after == a && outcome == first
            } else {
                exists|b: ContextView, second: RuleResult<()>| #[trigger]
                    step(self.main_action(), a, b, second) && if second is Err {
                        after == b && outcome == second
                    } else {
                        step(self.post_action(), b, after, outcome)
                    }
            }
    }

    /// These hooks are `from` with `f` as the predicate.
    pub open spec fn tests_with<F: Fn(&RuleContext) -> RuleResult<bool>>(
        &self,
        from: Hooks,
        f: F,
    ) -> bool {
        &&& forall|ctx: ContextView, outcome: RuleResult<bool>| #[trigger]
            self.evaluates(ctx, outcome) <==> yields(f, ctx, outcome)
        &&& self.pre_action() == from.pre_action()
        &&& self.main_action() == from.main_action()
        &&& self.post_action() == from.post_action()
    }

    /// These hooks are `from` with `f` as the action that runs first.
    pub open spec fn prepares_with<F: Fn(&mut RuleContext) -> RuleResult<()>>(
        &self,
        from: Hooks,
        f: F,
    ) -> bool {
        &&& forall|before: ContextView, after: ContextView, outcome: RuleResult<()>| #[trigger]
            step(self.pre_action(), before, after, outcome) <==> turns(f, before, after, outcome)
        &&& self.predicate() == from.predicate()
        &&& self.main_action() == from.main_action()
        &&& self.post_action() == from.post_action()
    }

    /// These hooks are `from` with `f` as the action that does the rule's work.
    pub open spec fn works_with<F: Fn(&mut RuleContext) -> RuleResult<()>>(
        &self,
        from: Hooks,
        f: F,
    ) -> bool {
        &&& forall|before: ContextView, after: ContextView, outcome: RuleResult<()>| #[trigger]
            step(self.main_action(), before, after, outcome) <==> turns(f, before, after, outcome)
        &&& self.predicate() == from.predicate()
        &&& self.pre_action() == from.pre_action()
        &&& self.post_action() == from.post_action()
    }

    /// These hooks are `from` with `f` as the action that runs last.
    pub open spec fn concludes_with<F: Fn(&mut RuleContext) -> RuleResult<()>>(
        &self,
        from: Hooks,
        f: F,
    ) -> bool {
        &&& forall|before: ContextView, after: ContextView, outcome: RuleResult<()>| #[trigger]
            step(self.post_action(), before, after, outcome) <==> turns(f, before, after, outcome)
        &&& self.predicate() == from.predicate()
        &&& self.pre_action() == from.pre_action()
        &&& self.main_action() == from.main_action()
    }

    /// No hook is set: the rule always applies, and its actions do nothing.
    pub open spec fn is_unset(&self) -> bool {
        &&& self.predicate() is None
        &&& self.pre_action() is None
        &&& self.main_action() is None
        &&& self.post_action() is None
    }

    /// No hook is set.
    pub fn new() -> (hooks: Self)
        ensures
            hooks.is_unset(),
    {
        Hooks { eval_fn: None, pre_execute_fn: None, execute_fn: None, post_execute_fn: None }
    }

    /// Makes `f` the predicate.
    pub fn set_eval_fn<F>(&mut self, f: F) where F: Fn(&RuleContext) -> RuleResult<bool> + 'static
        requires
            tests_any(f),
        ensures
            final(self).tests_with(*old(self), f),
    {
        self.eval_fn = Some(Box::new(FnPredicate::new(f)));
    }

    /// Makes `f` the action that runs first.
    pub fn set_pre_execute_fn<F>(&mut self, f: F) where
        F: Fn(&mut RuleContext) -> RuleResult<()> + 'static,

        requires
            changes_any(f),
        ensures
            final(self).prepares_with(*old(self), f),
    {
        self.pre_execute_fn = Some(Box::new(FnAction::new(f)));
    }

    /// Makes `f` the action that does the rule's work.
    pub fn set_execute_fn<F>(&mut self, f: F) where
        F: Fn(&mut RuleContext) -> RuleResult<()> + 'static,

        requires
            changes_any(f),
        ensures
            final(self).works_with(*old(self), f),
    {
        self.execute_fn = Some(Box::new(FnAction::new(f)));
    }

    /// Makes `f` the action that runs last.
    pub fn set_post_execute_fn<F>(&mut self, f: F) where
        F: Fn(&mut RuleContext) -> RuleResult<()> + 'static,

        requires
            changes_any(f),
        ensures
            final(self).concludes_with(*old(self), f),
    {
        self.post_execute_fn = Some(Box::new(FnAction::new(f)));
    }

    /// Asks the predicate whether the rule applies; it does where none is set.
    pub fn evaluate(&self, context: &RuleContext) -> (outcome: RuleResult<bool>)
        ensures
            self.evaluates(context@, outcome),
    {
        match &self.eval_fn {
            Some(p) => p.test(context),
            None => Ok(true),
        }
    }

    /// Runs the three actions in order, and stops at the first that fails.
    pub fn execute(&self, context: &mut RuleContext) -> (outcome: RuleResult<()>)
        ensures
            self.executes(old(context)@, final(context)@, outcome),
    {
        let first = run_step(&self.pre_execute_fn, context);
        let ghost a = context@;
        if let Err(e) = first {
            return Err(e);
        }
        let second = run_step(&self.execute_fn, context);
        let ghost b = context@;
        assert(step(self.main_action(), a, b, second));
        if let Err(e) = second {
            return Err(e);
        }
        run_step(&self.post_execute_fn, context)
    }
}

/// Hook order: a run of the three actions that succeeds goes through two
/// contexts in between. The first action turns the starting context into the
/// first of them, the main action turns that into the second, and the last
/// action turns the second into the final context, so each action sees what
/// the one before it did.
pub proof fn lemma_hook_order(hooks: Hooks, before: ContextView, after: ContextView)
    requires
        hooks.executes(before, after, Ok(())),
    ensures
        exists|a: ContextView, b: ContextView|
            #![trigger step(hooks.pre_action(), before, a, Ok(())), step(hooks.main_action(), a, b, Ok(()))]
            step(hooks.pre_action(), before, a, Ok(())) && step(hooks.main_action(), a, b, Ok(()))
                && step(hooks.post_action(), b, after, Ok(())),
{
    let (a, first) = choose|a: ContextView, first: RuleResult<()>| #[trigger]
        step(hooks.pre_action(), before, a, first) && if first is Err {
            after == a && Ok::<(), RuleError>(()) == first
        } else {
            exists|b: ContextView, second: RuleResult<()>| #[trigger]
                step(hooks.main_action(), a, b, second) && if second is Err {
                    after == b && Ok::<(), RuleError>(()) == second
                } else {
                    step(hooks.post_action(), b, after, Ok(()))
                }
        };
    let (b, second) = choose|b: ContextView, second: RuleResult<()>| #[trigger]
        step(hooks.main_action(), a, b, second) && if second is Err {
            after == b && Ok::<(), RuleError>(()) == second
        } else {
            step(hooks.post_action(), b, after, Ok(()))
        };
    assert(first->Ok_0 == ());
    assert(second->Ok_0 == ());
}

/// A failure ends the run where it happens: when the first action can only
/// fail, the other two never touch the context.
pub proof fn lemma_first_failure_stops(
    hooks: Hooks,
    before: ContextView,
    after: ContextView,
    outcome: RuleResult<()>,
)
    requires
        hooks.executes(before, after, outcome),
        forall|a: ContextView, first: RuleResult<()>| #[trigger]
            step(hooks.pre_action(), before, a, first) ==> first is Err,
    ensures
        step(hooks.pre_action(), before, after, outcome),
{
}

/// Defaults: where no hook is set the predicate says yes on every context,
/// and running the actions succeeds and leaves every context as it was.
pub proof fn lemma_unset_hooks(hooks: Hooks)
    requires
        hooks.is_unset(),
    ensures
        forall|ctx: ContextView, outcome: RuleResult<bool>| #[trigger]
            hooks.evaluates(ctx, outcome) <==> outcome == Ok::<bool, RuleError>(true),
        forall|before: ContextView, after: ContextView, outcome: RuleResult<()>| #[trigger]
            hooks.executes(before, after, outcome) <==> after == before && outcome is Ok,
{
    assert forall|before: ContextView, after: ContextView, outcome: RuleResult<()>| #[trigger]
        hooks.executes(before, after, outcome) <==> after == before && outcome is Ok by {
        if after == before && outcome is Ok {
            assert(outcome->Ok_0 == ());
            assert(step(hooks.pre_action(), before, before, Ok(())));
            assert(step(hooks.main_action(), before, before, Ok(())));
            assert(step(hooks.post_action(), before, after, outcome));
        }
    }
}

} // verus!
