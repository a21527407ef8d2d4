//! The error kinds of the engine and their messages.

use vstd::prelude::*;
use vstd::string::StringExecFns;

verus! {

/// What can go wrong while a rule tree is assembled or traversed.
#[derive(Debug, Clone, PartialEq)]
pub enum RuleError {
    /// A rule was fired without a context attached to it.
    ContextNotSet,
    /// A typed read found no value, or a value of another kind.
    TypeMismatch { key: &'static str, expected: &'static str },
    /// A child was offered to a rule that already holds as many as it may.
    TooManyChildren { max: usize, attempted: usize },
    /// A hook failed, or a runner was handed rules it cannot run.
    ExecutionFailed(String),
    /// Reserved for designs that share rules or contexts between owners.
    BorrowFailed(String),
}

/// The result of every fallible operation of the engine.
pub type RuleResult<T> = Result<T, RuleError>;

/// The character that writes the digit `d` (for `d` below ten).
pub open spec fn digit_char(d: nat) -> char {
    if d == 0 {
        '0'
    } else if d == 1 {
        '1'
    } else if d == 2 {
        '2'
    } else if d == 3 {
        '3'
    } else if d == 4 {
        '4'
    } else if d == 5 {
        '5'
    } else if d == 6 {
        '6'
    } else if d == 7 {
        '7'
    } else if d == 8 {
        '8'
    } else {
        '9'
    }
}

/// The decimal numeral of `n`, most significant digit first, without leading zeros.
pub open spec fn decimal(n: nat) -> Seq<char>
    decreases n,
{
    if n < 10 {
        seq![digit_char(n)]
    } else {
        decimal(n / 10).push(digit_char(n % 10))
    }
}

/// The text of an error, as it is shown to a person.
pub open spec fn message_text(e: RuleError) -> Seq<char> {
    match e {
        RuleError::ContextNotSet => "Rule context was not set"@,
        RuleError::TypeMismatch { key, expected } => "Type mismatch for key '"@ + key@
            + "': expected "@ + expected@,
        RuleError::TooManyChildren { max, attempted } => "Too many children: max "@ + decimal(
            max as nat,
        ) + " but attempted "@ + decimal(attempted as nat),
        RuleError::ExecutionFailed(msg) => "Rule execution failed: "@ + msg@,
        RuleError::BorrowFailed(msg) => "Borrow check failed: "@ + msg@,
    }
}

fn digit_str(d: usize) -> (s: &'static str)
    requires
        d < 10,
    ensures
        s@ == seq![digit_char(d as nat)],
{
    proof {
        reveal_strlit("0");
        reveal_strlit("1");
        reveal_strlit("2");
        reveal_strlit("3");
        reveal_strlit("4");
        reveal_strlit("5");
        reveal_strlit("6");
        reveal_strlit("7");
        reveal_strlit("8");
        reveal_strlit("9");
    }
    let s = if d == 0 {
        "0"
    } else if d == 1 {
        "1"
    } else if d == 2 {
        "2"
    } else if d == 3 {
        "3"
    } else if d == 4 {
        "4"
    } else if d == 5 {
        "5"
    } else if d == 6 {
        "6"
    } else if d == 7 {
        "7"
    } else if d == 8 {
        "8"
    } else {
        "9"
    };
    assert(s@ =~= seq![digit_char(d as nat)]);
    s
}

fn append_decimal(out: &mut String, n: usize)
    ensures
        final(out)@ == old(out)@ + decimal(n as nat),
    decreases n,
{
    if n >= 10 {
        append_decimal(out, n / 10);
    }
    out.append(digit_str(n % 10));
    assert(out@ =~= old(out)@ + decimal(n as nat));
}

impl RuleError {
    /// The message of this error.
    pub fn message(&self) -> (text: String)
        ensures
            text@ == message_text(*self),
    {
        match self {
            RuleError::ContextNotSet => String::from_str("Rule context was not set"),
            RuleError::TypeMismatch { key, expected } => {
                let mut text = String::from_str("Type mismatch for key '");
                text.append(key);
                text.append("': expected ");
                text.append(expected);
                text
            },
            RuleError::TooManyChildren { max, attempted } => {
                let mut text = String::from_str("Too many children: max ");
                append_decimal(&mut text, *max);
                text.append(" but attempted ");
                append_decimal(&mut text, *attempted);
                text
            },
            RuleError::ExecutionFailed(msg) => {
                let mut text = String::from_str("Rule execution failed: ");
                text.append(msg.as_str());
                text
            },
            RuleError::BorrowFailed(msg) => {
                let mut text = String::from_str("Borrow check failed: ");
                text.append(msg.as_str());
                text
            },
        }
    }
}

} // verus!
