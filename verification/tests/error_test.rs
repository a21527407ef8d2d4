use dredd_rs::error::RuleError;

#[test]
fn message_of_context_not_set() {
    assert_eq!(RuleError::ContextNotSet.message(), "Rule context was not set");
}

#[test]
fn message_of_type_mismatch() {
    let e = RuleError::TypeMismatch { key: "speed", expected: "i64" };
    assert_eq!(e.message(), "Type mismatch for key 'speed': expected i64");
}

#[test]
fn message_of_too_many_children() {
    let e = RuleError::TooManyChildren { max: 1, attempted: 2 };
    assert_eq!(e.message(), "Too many children: max 1 but attempted 2");
}

#[test]
fn message_writes_numbers_in_decimal() {
    let e = RuleError::TooManyChildren { max: 0, attempted: 10 };
    assert_eq!(e.message(), "Too many children: max 0 but attempted 10");
    let e = RuleError::TooManyChildren { max: 120, attempted: 4096 };
    assert_eq!(e.message(), "Too many children: max 120 but attempted 4096");
    let e = RuleError::TooManyChildren { max: 9, attempted: 1_000_000_007 };
    assert_eq!(e.message(), "Too many children: max 9 but attempted 1000000007");
    let e = RuleError::TooManyChildren { max: usize::MAX, attempted: 99 };
    assert_eq!(
        e.message(),
        format!("Too many children: max {} but attempted 99", usize::MAX)
    );
}

#[test]
fn message_of_execution_failed() {
    let e = RuleError::ExecutionFailed(String::from("disk on fire"));
    assert_eq!(e.message(), "Rule execution failed: disk on fire");
    let e = RuleError::ExecutionFailed(String::new());
    assert_eq!(e.message(), "Rule execution failed: ");
}

#[test]
fn message_of_borrow_failed() {
    let e = RuleError::BorrowFailed(String::from("already borrowed"));
    assert_eq!(e.message(), "Borrow check failed: already borrowed");
}

#[test]
fn errors_compare_and_clone() {
    let e = RuleError::TypeMismatch { key: "k", expected: "bool" };
    assert_eq!(e.clone(), e);
    assert_ne!(e, RuleError::ContextNotSet);
    assert_ne!(
        RuleError::TooManyChildren { max: 1, attempted: 2 },
        RuleError::TooManyChildren { max: 1, attempted: 3 }
    );
}
