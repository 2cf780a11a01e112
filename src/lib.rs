//! A small Lisp: source text is read into tokens, the tokens into nested groups of
//! terms, and the groups are evaluated bottom-up against a chain of scopes.

pub mod operator;
pub mod value;
pub mod error;
pub mod env;
pub mod tokenize;
pub mod eval;
pub mod semantics;
pub mod parser;
pub mod interp;
pub mod session;

pub use crate::env::{Environment, lookup};
pub use crate::error::InterpError;
pub use crate::eval::{add, def, eval, lambda, mul};
pub use crate::interp::{interp, interpret};
pub use crate::operator::{OperatorType, from_str};
pub use crate::tokenize::{Token, TokenStream};
pub use crate::parser::{Expr, build_lambda, parse, parse_tokens};
pub use crate::value::{BasicType, DataType, FloatOps, NumericType, SExpr, car, cdr};
pub use crate::session::{InputStatus, count_parens, input_status};
