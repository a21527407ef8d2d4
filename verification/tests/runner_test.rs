use dredd_rs::engine::Engine;
use dredd_rs::rule::{BestFirstRule, ChainRule, Rule, RuleContext, RuleError, RuleRunner};
use std::cell::Cell;
use std::rc::Rc;

fn mark(context: &mut RuleContext, step: &str) {
    let mut seen = context.get_string("trace").map(String::from).unwrap_or_default();
    seen.push_str(step);
    context.set_string("trace", seen);
}

fn marked(context: &RuleContext) -> String {
    context.get_string("trace").map(String::from).unwrap_or_default()
}

fn sibling(name: &'static str, applies: bool, asked: Rc<Cell<u32>>) -> Box<dyn Rule> {
    let mut rule = BestFirstRule::new();
    rule.set_eval_fn(move |_context| {
        asked.set(asked.get() + 1);
        Ok(applies)
    });
    rule.set_execute_fn(move |context| {
        mark(context, name);
        Ok(())
    });
    Box::new(rule)
}

fn link(name: &'static str, child: Option<ChainRule>) -> ChainRule {
    let mut rule = ChainRule::new();
    rule.set_execute_fn(move |context| {
        mark(context, name);
        Ok(())
    });
    if let Some(child) = child {
        rule.add_child(Box::new(child)).unwrap();
    }
    rule
}

#[test]
fn best_first_run_fires_the_first_sibling_that_applies() {
    let first = Rc::new(Cell::new(0u32));
    let second = Rc::new(Cell::new(0u32));
    let third = Rc::new(Cell::new(0u32));
    let rules = vec![
        sibling("1", false, first.clone()),
        sibling("2", true, second.clone()),
        sibling("3", true, third.clone()),
    ];
    let mut context = RuleContext::new();
    assert_eq!(Engine::execute_best_first(&mut context, &rules), Ok(()));
    assert_eq!(marked(&context), "2");
    assert_eq!(first.get(), 1);
    assert!(second.get() >= 1);
    assert_eq!(third.get(), 0);
}

#[test]
fn best_first_run_follows_the_committed_path_down() {
    let asked = Rc::new(Cell::new(0u32));
    let mut winner = BestFirstRule::new();
    winner.set_execute_fn(|context| {
        mark(context, "w");
        Ok(())
    });
    winner.add_child(sibling("a", false, asked.clone())).unwrap();
    winner.add_child(sibling("b", true, asked.clone())).unwrap();
    winner.add_child(sibling("c", true, Rc::new(Cell::new(0)))).unwrap();

    let rules: Vec<Box<dyn Rule>> = vec![Box::new(winner), sibling("late", true, asked.clone())];
    let mut context = RuleContext::new();
    assert_eq!(Engine::best_first_runner().run(&mut context, &rules), Ok(()));
    assert_eq!(marked(&context), "wb");
}

#[test]
fn best_first_run_succeeds_when_no_sibling_applies() {
    let asked = Rc::new(Cell::new(0u32));
    let rules = vec![sibling("1", false, asked.clone()), sibling("2", false, asked.clone())];
    let mut context = RuleContext::new();
    assert_eq!(Engine::execute_best_first(&mut context, &rules), Ok(()));
    assert_eq!(marked(&context), "");
    assert_eq!(asked.get(), 2);

    let none: Vec<Box<dyn Rule>> = Vec::new();
    assert_eq!(Engine::execute_best_first(&mut context, &none), Ok(()));
}

#[test]
fn best_first_run_aborts_on_a_failing_action() {
    let mut failing = BestFirstRule::new();
    failing.set_execute_fn(|_context| Err(RuleError::ExecutionFailed(String::from("boom"))));
    let asked = Rc::new(Cell::new(0u32));
    let rules: Vec<Box<dyn Rule>> = vec![Box::new(failing), sibling("next", true, asked.clone())];
    let mut context = RuleContext::new();
    assert_eq!(
        Engine::execute_best_first(&mut context, &rules),
        Err(RuleError::ExecutionFailed(String::from("boom")))
    );
    assert_eq!(asked.get(), 0);
    assert_eq!(marked(&context), "");
}

#[test]
fn best_first_run_aborts_on_a_failing_predicate() {
    let mut broken = BestFirstRule::new();
    broken.set_eval_fn(|context| context.get_bool("missing"));
    let asked = Rc::new(Cell::new(0u32));
    let rules: Vec<Box<dyn Rule>> = vec![Box::new(broken), sibling("next", true, asked.clone())];
    let mut context = RuleContext::new();
    assert_eq!(
        Engine::execute_best_first(&mut context, &rules),
        Err(RuleError::TypeMismatch { key: "missing", expected: "bool" })
    );
    assert_eq!(asked.get(), 0);
}

#[test]
fn chain_run_fires_the_one_chain() {
    let rules: Vec<Box<dyn Rule>> =
        vec![Box::new(link("1", Some(link("2", Some(link("3", None))))))];
    let mut context = RuleContext::new();
    assert_eq!(Engine::execute_chain(&mut context, &rules), Ok(()));
    assert_eq!(marked(&context), "123");
}

#[test]
fn chain_run_succeeds_when_the_head_does_not_apply() {
    let mut head = link("1", Some(link("2", None)));
    head.set_eval_fn(|_context| Ok(false));
    let rules: Vec<Box<dyn Rule>> = vec![Box::new(head)];
    let mut context = RuleContext::new();
    assert_eq!(Engine::chain_runner().run(&mut context, &rules), Ok(()));
    assert_eq!(marked(&context), "");
}

#[test]
fn chain_run_refuses_two_roots_and_runs_nothing() {
    let asked = Rc::new(Cell::new(0u32));
    let mut first = link("1", None);
    let a = asked.clone();
    first.set_eval_fn(move |_context| {
        a.set(a.get() + 1);
        Ok(true)
    });
    let rules: Vec<Box<dyn Rule>> = vec![Box::new(first), Box::new(link("2", None))];
    let mut context = RuleContext::new();
    match Engine::execute_chain(&mut context, &rules) {
        Err(RuleError::ExecutionFailed(message)) => {
            assert_eq!(message, "a chain run takes one top-level rule")
        }
        other => panic!("expected ExecutionFailed, got {:?}", other),
    }
    assert_eq!(marked(&context), "");
    assert_eq!(asked.get(), 0);

    let three: Vec<Box<dyn Rule>> =
        vec![Box::new(link("1", None)), Box::new(link("2", None)), Box::new(link("3", None))];
    assert!(matches!(
        Engine::execute_chain(&mut context, &three),
        Err(RuleError::ExecutionFailed(_))
    ));
    assert_eq!(marked(&context), "");
}

#[test]
fn chain_run_of_no_rule_does_nothing() {
    let none: Vec<Box<dyn Rule>> = Vec::new();
    let mut context = RuleContext::new();
    context.set_int("n", 1);
    assert_eq!(Engine::execute_chain(&mut context, &none), Ok(()));
    assert_eq!(context.get_int("n"), Ok(1));
}

#[test]
fn chain_run_hands_up_the_error_of_a_node() {
    let mut tail = link("2", None);
    tail.set_post_execute_fn(|_context| Err(RuleError::BorrowFailed(String::from("late"))));
    let rules: Vec<Box<dyn Rule>> = vec![Box::new(link("1", Some(tail)))];
    let mut context = RuleContext::new();
    assert_eq!(
        Engine::execute_chain(&mut context, &rules),
        Err(RuleError::BorrowFailed(String::from("late")))
    );
    assert_eq!(marked(&context), "12");
}
