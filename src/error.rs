use vstd::prelude::*;
use vstd::string::*;
use crate::operator::{OperatorType, keyword, spec_keyword};

verus! {

/// What can go wrong while reading or evaluating an expression.
#[derive(Debug, PartialEq, Eq)]
pub enum InterpError {
    /// A word that is no literal, symbol or keyword, or a string without its closing quote.
    InvalidToken,
    /// A group that is not closed, or a closing parenthesis with no group open.
    UnbalancedParentheses,
    /// An application whose head is not an operator, or an operator where a value belongs.
    MalformedApplication,
    /// A name with no binding in the environment chain.
    UnboundVariable(String),
    /// A binding that does not reduce to a value written out.
    UnresolvableBinding,
    /// An arithmetic operand that is not a number.
    TypeError,
    /// `define` applied to something other than a symbol.
    NonSymbolAssignment,
    /// A `lambda` form that does not have the shape `(lambda (x) (op ...))`.
    MalformedLambda,
    /// An operator that the evaluator does not carry out.
    NotYetImplemented(OperatorType),
    /// An expression with no terms.
    EmptyExpression,
    /// An operator given too few operands.
    WrongArity,
    /// An integer result outside the signed 64-bit range.
    Overflow,
    /// An integer division by zero.
    DivisionByZero,
}

pub open spec fn spec_message(e: InterpError) -> Seq<char> {
    match e {
        InterpError::InvalidToken => "Invalid token"@,
        InterpError::UnbalancedParentheses => "Unbalanced parentheses"@,
        InterpError::MalformedApplication => "Malformed application"@,
        InterpError::UnboundVariable(name) => "Unbound variable: "@ + name@,
        InterpError::UnresolvableBinding => "Unresolvable binding"@,
        InterpError::TypeError => "Type error: arithmetic on a non-number"@,
        InterpError::NonSymbolAssignment => "Nonsymbol assignment"@,
        InterpError::MalformedLambda => "Improper lambda expression"@,
        InterpError::NotYetImplemented(op) => "Not yet implemented: "@ + spec_keyword(op),
        InterpError::EmptyExpression => "Empty expression"@,
        InterpError::WrongArity => "Wrong number of operands"@,
        InterpError::Overflow => "Integer overflow"@,
        InterpError::DivisionByZero => "Division by zero"@,
    }
}

impl InterpError {
    /// The text shown for this error.
    pub fn message(&self) -> (r: String)
        ensures
            r@ == spec_message(*self),
    {
        match self {
            InterpError::InvalidToken => String::from_str("Invalid token"),
            InterpError::UnbalancedParentheses => String::from_str("Unbalanced parentheses"),
            InterpError::MalformedApplication => String::from_str("Malformed application"),
            InterpError::UnboundVariable(name) => String::from_str("Unbound variable: ").concat(
                name.as_str(),
            ),
            InterpError::UnresolvableBinding => String::from_str("Unresolvable binding"),
            InterpError::TypeError => String::from_str("Type error: arithmetic on a non-number"),
            InterpError::NonSymbolAssignment => String::from_str("Nonsymbol assignment"),
            InterpError::MalformedLambda => String::from_str("Improper lambda expression"),
            InterpError::NotYetImplemented(op) => {
                let k = keyword(*op);
                String::from_str("Not yet implemented: ").concat(k.as_str())
            },
            InterpError::EmptyExpression => String::from_str("Empty expression"),
            InterpError::WrongArity => String::from_str("Wrong number of operands"),
            InterpError::Overflow => String::from_str("Integer overflow"),
            InterpError::DivisionByZero => String::from_str("Division by zero"),
        }
    }
}

} // verus!
