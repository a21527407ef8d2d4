//! The chain flavor: a rule has at most one child, so a tree of such rules is
//! one line from the root down.

use crate::context::{ContextView, RuleContext};
use crate::error::{RuleError, RuleResult};
use crate::hooks::{changes_any, tests_any, Hooks};
use crate::rule::{fires, settled, Rule};
use vstd::prelude::*;

verus! {

/// The error of offering a child to a chain rule that has one.
pub open spec fn chain_full() -> RuleError {
    RuleError::TooManyChildren { max: 1, attempted: 2 }
}

/// What a chain rule that holds `held` answers when it is offered a child.
pub open spec fn receives<T>(held: Option<T>) -> RuleResult<()> {
    if held is Some {
        Err(chain_full())
    } else {
        Ok(())
    }
}

/// What a chain rule holds after it was offered `child` while it held `held`.
pub open spec fn linked<T>(child: T, held: Option<T>) -> Option<T> {
    if held is Some {
        held
    } else {
        Some(child)
    }
}

/// A rule of the chain flavor: once its own actions have run it fires its
/// child, if it has one.
pub struct ChainRule {
    child: Option<Box<dyn Rule>>,
    hooks: Hooks,
}

impl ChainRule {
    /// The hooks of this rule.
    pub closed spec fn hooks(&self) -> Hooks {
        self.hooks
    }

    /// The child of this rule, if it has one.
    pub closed spec fn link(&self) -> Option<Box<dyn Rule>> {
        self.child
    }

    /// A rule that always applies, does nothing and has no child.
    pub fn new() -> (rule: Self)
        ensures
            rule.link() is None,
            rule.hooks().is_unset(),
    {
        ChainRule { child: None, hooks: Hooks::new() }
    }

    /// A builder that starts from `ChainRule::new()`.
    pub fn builder() -> (b: ChainRuleBuilder)
        ensures
            b.rule().link() is None,
            b.rule().hooks().is_unset(),
    {
        ChainRuleBuilder::new()
    }

    /// Makes `f` the predicate of this rule, and hands the rule back.
    pub fn set_eval_fn<F>(&mut self, f: F) -> (rule: &mut Self) where
        F: Fn(&RuleContext) -> RuleResult<bool> + 'static,

        requires
            tests_any(f),
        ensures
            rule.hooks().tests_with(old(self).hooks(), f),
            rule.link() == old(self).link(),
            *final(self) == *final(rule),
    {
        self.hooks.set_eval_fn(f);
        self
    }

    /// Makes `f` the action that runs before the main action, and hands the rule back.
    pub fn set_pre_execute_fn<F>(&mut self, f: F) -> (rule: &mut Self) where
        F: Fn(&mut RuleContext) -> RuleResult<()> + 'static,

        requires
            changes_any(f),
        ensures
            rule.hooks().prepares_with(old(self).hooks(), f),
            rule.link() == old(self).link(),
            *final(self) == *final(rule),
    {
        self.hooks.set_pre_execute_fn(f);
        self
    }

    /// Makes `f` the main action, and hands the rule back.
    pub fn set_execute_fn<F>(&mut self, f: F) -> (rule: &mut Self) where
        F: Fn(&mut RuleContext) -> RuleResult<()> + 'static,

        requires
            changes_any(f),
        ensures
            rule.hooks().works_with(old(self).hooks(), f),
            rule.link() == old(self).link(),
            *final(self) == *final(rule),
    {
        self.hooks.set_execute_fn(f);
        self
    }

    /// Makes `f` the action that runs after the main action, and hands the rule back.
    pub fn set_post_execute_fn<F>(&mut self, f: F) -> (rule: &mut Self) where
        F: Fn(&mut RuleContext) -> RuleResult<()> + 'static,

        requires
            changes_any(f),
        ensures
            rule.hooks().concludes_with(old(self).hooks(), f),
            rule.link() == old(self).link(),
            *final(self) == *final(rule),
    {
        self.hooks.set_post_execute_fn(f);
        self
    }

    /// The children: none, or the one child.
    pub fn children(&self) -> (kids: &[Box<dyn Rule>])
        ensures
            kids@ == (match self.link() {
                Some(k) => seq![k],
                None => seq![],
            }),
    {
        self.child.as_slice()
    }

    /// The place of the child, to be changed in place: it holds one rule or
    /// none, so no change through it gives this rule a second child.
    pub fn children_mut(&mut self) -> (place: &mut Option<Box<dyn Rule>>)
        ensures
            *place == old(self).link(),
            final(self).link() == *final(place),
            final(self).hooks() == old(self).hooks(),
    {
        &mut self.child
    }

    /// Makes `child` the child of this rule, unless it has one already: then
    /// it fails with `TooManyChildren { max: 1, attempted: 2 }`, and the rule
    /// keeps the child it has.
    pub fn add_child(&mut self, child: Box<dyn Rule>) -> (outcome: RuleResult<()>)
        ensures
            outcome == receives(old(self).link()),
            final(self).link() == linked(child, old(self).link()),
            final(self).hooks() == old(self).hooks(),
    {
        if self.child.is_some() {
            return Err(RuleError::TooManyChildren { max: 1, attempted: 2 });
        }
        let link = Some(child);
        self.child = link;
        Ok(())
    }

    /// Makes `child` the child of this rule and hands the rule back, unless it
    /// has a child already: then it fails with
    /// `TooManyChildren { max: 1, attempted: 2 }`, and the rule keeps the
    /// child it has.
    pub fn set_child(&mut self, child: Box<dyn Rule>) -> (outcome: RuleResult<&mut Self>)
        ensures
            outcome is Ok <==> old(self).link() is None,
            outcome is Err ==> outcome->Err_0 == chain_full() && *final(self) == *old(self),
            outcome is Ok ==> outcome->Ok_0.link() == Some(child) && outcome->Ok_0.hooks() == old(
                self,
            ).hooks() && *final(self) == *final(outcome->Ok_0),
    {
        if self.child.is_some() {
            return Err(RuleError::TooManyChildren { max: 1, attempted: 2 });
        }
        let link = Some(child);
        self.child = link;
        Ok(self)
    }

    /// Offers the rules of `children` one after the other, as `add_child`
    /// would, and stops at the first that is refused. So the first of them
    /// becomes the child where the rule has none, and every other one fails
    /// with `TooManyChildren { max: 1, attempted: 2 }`.
    pub fn add_children(&mut self, children: Vec<Box<dyn Rule>>) -> (outcome: RuleResult<()>)
        ensures
            outcome is Ok <==> (children@.len() == 0 || (children@.len() == 1 && old(
                self,
            ).link() is None)),
            outcome is Err ==> outcome->Err_0 == chain_full(),
            final(self).link() == if old(self).link() is None && children@.len() > 0 {
                Some(children@[0])
            } else {
                old(self).link()
            },
            final(self).hooks() == old(self).hooks(),
    {
        let mut rest = children;
        if rest.len() == 0 {
            return Ok(());
        }
        if self.child.is_some() {
            return Err(RuleError::TooManyChildren { max: 1, attempted: 2 });
        }
        let first = rest.remove(0);
        let link = Some(first);
        self.child = link;
        if rest.len() > 0 {
            return Err(RuleError::TooManyChildren { max: 1, attempted: 2 });
        }
        Ok(())
    }
}

impl Default for ChainRule {
    fn default() -> (rule: Self)
        ensures
            rule.link() is None,
            rule.hooks().is_unset(),
    {
        ChainRule::new()
    }
}

impl Rule for ChainRule {
    open spec fn evaluates(&self, ctx: ContextView, outcome: RuleResult<bool>) -> bool {
        self.hooks().evaluates(ctx, outcome)
    }

    open spec fn executes(
        &self,
        before: ContextView,
        after: ContextView,
        outcome: RuleResult<()>,
    ) -> bool {
        self.hooks().executes(before, after, outcome)
    }

    open spec fn descends(
        &self,
        before: ContextView,
        after: ContextView,
        outcome: RuleResult<bool>,
    ) -> bool {
        match self.link() {
            Some(k) => exists|fired: RuleResult<bool>| #[trigger]
                fires(&*k, before, after, fired) && outcome == settled(fired),
            None => after == before && outcome == Ok::<bool, RuleError>(true),
        }
    }

    fn evaluate(&self, context: &RuleContext) -> (outcome: RuleResult<bool>) {
        self.hooks.evaluate(context)
    }

    fn execute(&self, context: &mut RuleContext) -> (outcome: RuleResult<()>) {
        self.hooks.execute(context)
    }

    fn descend(&self, context: &mut RuleContext) -> (outcome: RuleResult<bool>) {
        match &self.child {
            Some(k) => {
                let ghost here = context@;
                let fired = k.fire(context);
                assert(fires(&**k, here, context@, fired));
                match fired {
                    Err(x) => Err(x),
                    Ok(_) => Ok(true),
                }
            },
            None => Ok(true),
        }
    }
}

/// Assembles a `ChainRule` step by step.
pub struct ChainRuleBuilder {
    rule: ChainRule,
}

impl ChainRuleBuilder {
    /// The rule as it has been assembled so far.
    pub closed spec fn rule(&self) -> ChainRule {
        self.rule
    }

    /// A builder that starts from `ChainRule::new()`.
    pub fn new() -> (b: Self)
        ensures
            b.rule().link() is None,
            b.rule().hooks().is_unset(),
    {
        ChainRuleBuilder { rule: ChainRule::new() }
    }

    /// Makes `f` the predicate of the rule.
    pub fn eval_fn<F>(self, f: F) -> (b: Self) where
        F: Fn(&RuleContext) -> RuleResult<bool> + 'static,

        requires
            tests_any(f),
        ensures
            b.rule().hooks().tests_with(self.rule().hooks(), f),
            b.rule().link() == self.rule().link(),
    {
        let mut b = self;
        b.rule.set_eval_fn(f);
        b
    }

    /// Makes `f` the action that runs before the main action.
    pub fn pre_execute_fn<F>(self, f: F) -> (b: Self) where
        F: Fn(&mut RuleContext) -> RuleResult<()> + 'static,

        requires
            changes_any(f),
        ensures
            b.rule().hooks().prepares_with(self.rule().hooks(), f),
            b.rule().link() == self.rule().link(),
    {
        let mut b = self;
        b.rule.set_pre_execute_fn(f);
        b
    }

    /// Makes `f` the main action.
    pub fn execute_fn<F>(self, f: F) -> (b: Self) where
        F: Fn(&mut RuleContext) -> RuleResult<()> + 'static,

        requires
            changes_any(f),
        ensures
            b.rule().hooks().works_with(self.rule().hooks(), f),
            b.rule().link() == self.rule().link(),
    {
        let mut b = self;
        b.rule.set_execute_fn(f);
        b
    }

    /// Makes `f` the action that runs after the main action.
    pub fn post_execute_fn<F>(self, f: F) -> (b: Self) where
        F: Fn(&mut RuleContext) -> RuleResult<()> + 'static,

        requires
            changes_any(f),
        ensures
            b.rule().hooks().concludes_with(self.rule().hooks(), f),
            b.rule().link() == self.rule().link(),
    {
        let mut b = self;
        b.rule.set_post_execute_fn(f);
        b
    }

    /// Makes `child` the child of the rule; fails with
    /// `TooManyChildren { max: 1, attempted: 2 }` where it has one already.
    pub fn child(self, child: Box<dyn Rule>) -> (outcome: RuleResult<Self>)
        ensures
            outcome is Ok <==> self.rule().link() is None,
            outcome is Err ==> outcome->Err_0 == chain_full(),
            outcome is Ok ==> outcome->Ok_0.rule().link() == Some(child)
                && outcome->Ok_0.rule().hooks() == self.rule().hooks(),
    {
        let mut b = self;
        if b.rule.child.is_some() {
            return Err(RuleError::TooManyChildren { max: 1, attempted: 2 });
        }
        let link = Some(child);
        b.rule.child = link;
        Ok(b)
    }

    /// The rule that was assembled.
    pub fn build(self) -> (rule: ChainRule)
        ensures
            rule == self.rule(),
    {
        self.rule
    }
}

impl Default for ChainRuleBuilder {
    fn default() -> (b: Self)
        ensures
            b.rule().link() is None,
            b.rule().hooks().is_unset(),
    {
        ChainRuleBuilder::new()
    }
}

/// Arity: a chain rule takes its first child and refuses every later one
/// with `TooManyChildren { max: 1, attempted: 2 }`, and a refusal leaves the
/// child that is there in its place.
pub proof fn lemma_second_child_refused<T>(held: Option<T>, first: T, second: T)
    ensures
        receives(None::<T>) is Ok,
        linked(first, None) == Some(first),
        ({
            let after_first = linked(first, held);
            &&& receives(after_first) == Err::<(), RuleError>(chain_full())
            &&& linked(second, after_first) == after_first
        }),
        chain_full() == (RuleError::TooManyChildren { max: 1, attempted: 2 }),
{
}

/// The rules `nodes` are one chain: each goes on to the next one alone, as a
/// chain rule goes on to its child, and the last goes on to nothing.
pub open spec fn is_chain(nodes: Seq<Box<dyn Rule>>) -> bool {
    forall|i: int, before: ContextView, after: ContextView, outcome: RuleResult<bool>|
        0 <= i < nodes.len() ==> (#[trigger] nodes[i].descends(before, after, outcome) <==> if i
            + 1 < nodes.len() {
            exists|fired: RuleResult<bool>| #[trigger]
                fires(&*nodes[i + 1], before, after, fired) && outcome == settled(fired)
        } else {
            after == before && outcome == Ok::<bool, RuleError>(true)
        })
}

/// A walk down the chain `nodes` that starts at the rule `from` on a context
/// that holds `before`, and ends above the rule `reached` on a context that
/// holds `after`.
///
/// Each of the rules `nodes[from..reached]`, in this order, is handed the
/// context as the rule above it left it; its predicate says yes on that
/// context, and its own actions run on it with success. The rule `reached`,
/// if the chain is that long, is handed the context last: its predicate says
/// no on it, so `after` is what the rule above it left. No rule from
/// `reached` down runs anything.
pub open spec fn walks(
    nodes: Seq<Box<dyn Rule>>,
    from: int,
    reached: int,
    before: ContextView,
    after: ContextView,
) -> bool
    decreases reached - from,
{
    if from < 0 || from >= reached || from >= nodes.len() {
        &&& after == before
        &&& 0 <= reached < nodes.len() ==> nodes[reached].evaluates(
            before,
            Ok::<bool, RuleError>(false),
        )
    } else {
        &&& nodes[from].evaluates(before, Ok::<bool, RuleError>(true))
        &&& exists|mid: ContextView, done: RuleResult<()>| #[trigger]
            nodes[from].executes(before, mid, done) && done is Ok && walks(
                nodes,
                from + 1,
                reached,
                mid,
                after,
            )
    }
}

/// A chain rule goes on to its child alone, and to nothing where it has none.
pub proof fn lemma_chain_rule_descends(
    rule: ChainRule,
    before: ContextView,
    after: ContextView,
    outcome: RuleResult<bool>,
)
    ensures
        rule.descends(before, after, outcome) <==> match rule.link() {
            Some(k) => exists|fired: RuleResult<bool>| #[trigger]
                fires(&*k, before, after, fired) && outcome == settled(fired),
            None => after == before && outcome == Ok::<bool, RuleError>(true),
        },
{
}

/// Chain linearity. Let `nodes` be a chain, and let the rule `from` of it be
/// fired on a context that holds `before`. A firing that ends without an
/// error is a walk down the chain from that rule: the own actions of the
/// rules run one after the other, from `from` down to the first rule whose
/// predicate says no on the context that it is handed, or to the end of the
/// chain, and no rule below that one runs. It reports `true` unless the rule
/// `from` itself did not apply.
pub proof fn lemma_chain_linearity(
    nodes: Seq<Box<dyn Rule>>,
    from: int,
    before: ContextView,
    after: ContextView,
    outcome: RuleResult<bool>,
) -> (reached: int)
    requires
        is_chain(nodes),
        0 <= from < nodes.len(),
        fires(&*nodes[from], before, after, outcome),
        outcome is Ok,
    ensures
        from <= reached <= nodes.len(),
        walks(nodes, from, reached, before, after),
        outcome == Ok::<bool, RuleError>(from < reached),
    decreases nodes.len() - from,
{
    let e = choose|e: RuleResult<bool>| #[trigger]
        nodes[from].evaluates(before, e) && if e != Ok::<bool, RuleError>(true) {
            after == before && outcome == e
        } else {
            exists|mid: ContextView, done: RuleResult<()>| #[trigger]
                nodes[from].executes(before, mid, done) && match done {
                    Err(x) => after == mid && outcome == Err::<bool, RuleError>(x),
                    Ok(_) => nodes[from].descends(mid, after, outcome),
                }
        };
    if e != Ok::<bool, RuleError>(true) {
        assert(e is Ok);
        assert(e == Ok::<bool, RuleError>(e->Ok_0));
        from
    } else {
        let (mid, done) = choose|mid: ContextView, done: RuleResult<()>| #[trigger]
            nodes[from].executes(before, mid, done) && match done {
                Err(x) => after == mid && outcome == Err::<bool, RuleError>(x),
                Ok(_) => nodes[from].descends(mid, after, outcome),
            };
        assert(done is Ok);
        assert(nodes[from].descends(mid, after, outcome));
        if from + 1 < nodes.len() {
            let fired = choose|fired: RuleResult<bool>| #[trigger]
                fires(&*nodes[from + 1], mid, after, fired) && outcome == settled(fired);
            let below = lemma_chain_linearity(nodes, from + 1, mid, after, fired);
            assert(walks(nodes, from + 1, below, mid, after));
            below
        } else {
            assert(walks(nodes, from + 1, nodes.len() as int, mid, after));
            nodes.len() as int
        }
    }
}

/// The converse of chain linearity: every walk down a chain is a firing of
/// the rule that it starts at, which ends without an error.
pub proof fn lemma_walk_is_firing(
    nodes: Seq<Box<dyn Rule>>,
    from: int,
    reached: int,
    before: ContextView,
    after: ContextView,
)
    requires
        is_chain(nodes),
        0 <= from < nodes.len(),
        from <= reached <= nodes.len(),
        walks(nodes, from, reached, before, after),
    ensures
        fires(&*nodes[from], before, after, Ok::<bool, RuleError>(from < reached)),
    decreases nodes.len() - from,
{
    if from < reached {
        let (mid, done) = choose|mid: ContextView, done: RuleResult<()>| #[trigger]
            nodes[from].executes(before, mid, done) && done is Ok && walks(
                nodes,
                from + 1,
                reached,
                mid,
                after,
            );
        if from + 1 < nodes.len() {
            lemma_walk_is_firing(nodes, from + 1, reached, mid, after);
            let fired = Ok::<bool, RuleError>(from + 1 < reached);
            assert(fires(&*nodes[from + 1], mid, after, fired));
            assert(settled(fired) == Ok::<bool, RuleError>(true));
        }
        assert(nodes[from].descends(mid, after, Ok::<bool, RuleError>(true)));
    } else {
        assert(nodes[from].evaluates(before, Ok::<bool, RuleError>(false)));
    }
}

/// Chain linearity, for a chain rule as the head. Let `below` be the chain
/// under `head`, from its child down. A firing of `head` that ends without
/// an error either finds that `head` does not apply, and leaves the context
/// as it was, or it runs the own actions of `head` and then walks down
/// `below`, to the first rule whose predicate says no on the context that it
/// is handed or to the end of the chain.
pub proof fn lemma_chain_rule_linearity(
    head: ChainRule,
    below: Seq<Box<dyn Rule>>,
    before: ContextView,
    after: ContextView,
    outcome: RuleResult<bool>,
)
    requires
        below.len() == 0 ==> head.link() is None,
        below.len() > 0 ==> head.link() is Some && head.link()->0 == below[0] && is_chain(below),
        fires(&head, before, after, outcome),
        outcome is Ok,
    ensures
        outcome == Ok::<bool, RuleError>(false) ==> after == before && head.evaluates(
            before,
            Ok::<bool, RuleError>(false),
        ),
        outcome == Ok::<bool, RuleError>(true) ==> head.evaluates(
            before,
            Ok::<bool, RuleError>(true),
        ) && exists|mid: ContextView, done: RuleResult<()>, reached: int|
            #![trigger head.executes(before, mid, done), walks(below, 0, reached, mid, after)]
            head.executes(before, mid, done) && done is Ok && 0 <= reached <= below.len() && walks(
                below,
                0,
                reached,
                mid,
                after,
            ),
{
    let e = choose|e: RuleResult<bool>| #[trigger]
        head.evaluates(before, e) && if e != Ok::<bool, RuleError>(true) {
            after == before && outcome == e
        } else {
            exists|mid: ContextView, done: RuleResult<()>| #[trigger]
                head.executes(before, mid, done) && match done {
                    Err(x) => after == mid && outcome == Err::<bool, RuleError>(x),
                    Ok(_) => head.descends(mid, after, outcome),
                }
        };
    if e == Ok::<bool, RuleError>(true) {
        let (mid, done) = choose|mid: ContextView, done: RuleResult<()>| #[trigger]
            head.executes(before, mid, done) && match done {
                Err(x) => after == mid && outcome == Err::<bool, RuleError>(x),
                Ok(_) => head.descends(mid, after, outcome),
            };
        assert(done is Ok);
        if below.len() > 0 {
            let fired = choose|fired: RuleResult<bool>| #[trigger]
                fires(&*head.link()->0, mid, after, fired) && outcome == settled(fired);
            let reached = lemma_chain_linearity(below, 0, mid, after, fired);
            assert(walks(below, 0, reached, mid, after));
        } else {
            assert(walks(below, 0, 0, mid, after));
        }
    }
}

} // verus!
