use risp::{interp, interpret, BasicType, DataType, Environment, FloatOps, InterpError, NumericType, OperatorType, SExpr};

struct Ieee;

impl FloatOps for Ieee {
    fn from_decimal(&self, text: &str) -> u64 {
        text.parse::<f64>().unwrap_or(f64::NAN).to_bits()
    }

    fn from_integer(&self, i: i64) -> u64 {
        (i as f64).to_bits()
    }

    fn add(&self, a: u64, b: u64) -> u64 {
        (f64::from_bits(a) + f64::from_bits(b)).to_bits()
    }

    fn sub(&self, a: u64, b: u64) -> u64 {
        (f64::from_bits(a) - f64::from_bits(b)).to_bits()
    }

    fn mul(&self, a: u64, b: u64) -> u64 {
        (f64::from_bits(a) * f64::from_bits(b)).to_bits()
    }

    fn div(&self, a: u64, b: u64) -> u64 {
        (f64::from_bits(a) / f64::from_bits(b)).to_bits()
    }

    fn render(&self, a: u64) -> String {
        format!("{:?}", f64::from_bits(a))
    }
}

fn run(src: &str, env: &mut Environment) -> Result<BasicType, InterpError> {
    interpret(src, env, &Ieee)
}

fn integer(i: i64) -> BasicType {
    BasicType::Number(NumericType::Integer(i))
}

fn float(x: f64) -> BasicType {
    BasicType::Number(NumericType::Floating(x.to_bits()))
}

#[test]
fn add_two_integers() {
    let mut env = Environment::new();
    assert_eq!(run("(+ 1 2)", &mut env), Ok(integer(3)));
}

#[test]
fn add_float_and_integer() {
    let mut env = Environment::new();
    assert_eq!(run("(+ 1.0 2)", &mut env), Ok(float(3.0)));
}

#[test]
fn multiply_three_integers() {
    let mut env = Environment::new();
    assert_eq!(run("(* 2 3 4)", &mut env), Ok(integer(24)));
}

#[test]
fn define_then_read_variable() {
    let mut env = Environment::new();
    assert_eq!(run("(define x 5)", &mut env), Ok(BasicType::Symbol("x".to_string())));
    assert_eq!(run("x", &mut env), Ok(integer(5)));
}

#[test]
fn nested_groups_evaluate_first() {
    let mut env = Environment::new();
    assert_eq!(run("(+ 1 (* 2 3))", &mut env), Ok(integer(7)));
    assert_eq!(run("(* (+ 1 2) (+ 3 4))", &mut env), Ok(integer(21)));
}

#[test]
fn unterminated_string_is_invalid() {
    let mut env = Environment::new();
    assert_eq!(run("\"abc", &mut env), Err(InterpError::InvalidToken));
}

#[test]
fn missing_close_paren_is_unbalanced() {
    let mut env = Environment::new();
    assert_eq!(run("(+ 1 2", &mut env), Err(InterpError::UnbalancedParentheses));
}

#[test]
fn stray_close_paren_is_unbalanced() {
    let mut env = Environment::new();
    assert_eq!(run("(+ 1 2))", &mut env), Err(InterpError::UnbalancedParentheses));
    assert_eq!(run(")", &mut env), Err(InterpError::UnbalancedParentheses));
}

#[test]
fn operator_as_operand_is_malformed() {
    let mut env = Environment::new();
    assert_eq!(run("(+ + 1)", &mut env), Err(InterpError::MalformedApplication));
}

#[test]
fn unknown_symbol_is_unbound() {
    let mut env = Environment::new();
    assert_eq!(run("y", &mut env), Err(InterpError::UnboundVariable("y".to_string())));
}

#[test]
fn variable_operands_are_looked_up() {
    let mut env = Environment::new();
    run("(define a 4)", &mut env).unwrap();
    run("(define b 6)", &mut env).unwrap();
    assert_eq!(run("(* a b)", &mut env), Ok(integer(24)));
    assert_eq!(run("(+ a c)", &mut env), Err(InterpError::UnboundVariable("c".to_string())));
}

#[test]
fn define_replaces_earlier_binding() {
    let mut env = Environment::new();
    run("(define x 1)", &mut env).unwrap();
    run("(define x (+ x 1))", &mut env).unwrap();
    assert_eq!(run("x", &mut env), Ok(integer(2)));
    assert_eq!(env.variables.len(), 1);
}

#[test]
fn define_names_its_value_symbol() {
    let mut env = Environment::new();
    run("(define x y)", &mut env).unwrap();
    assert_eq!(run("x", &mut env), Ok(BasicType::Symbol("y".to_string())));
}

#[test]
fn failed_expression_leaves_environment_alone() {
    let mut env = Environment::new();
    assert_eq!(run("(+ (define z 1) 2)", &mut env), Err(InterpError::TypeError));
    assert_eq!(run("z", &mut env), Err(InterpError::UnboundVariable("z".to_string())));
    assert_eq!(env.variables.len(), 0);
}

#[test]
fn integer_overflow_is_reported() {
    let mut env = Environment::new();
    assert_eq!(run("(+ 9223372036854775807 1)", &mut env), Err(InterpError::Overflow));
    assert_eq!(run("(* 4611686018427387904 2)", &mut env), Err(InterpError::Overflow));
    assert_eq!(run("(- -9223372036854775808i)", &mut env), Err(InterpError::Overflow));
}

#[test]
fn only_the_exact_result_must_fit() {
    let mut env = Environment::new();
    assert_eq!(run("(+ 9223372036854775807 1 -1)", &mut env), Ok(integer(i64::MAX)));
    assert_eq!(run("(* 9223372036854775807 2 0)", &mut env), Ok(integer(0)));
    assert_eq!(run("(- -9223372036854775808i 1 -1)", &mut env), Ok(integer(i64::MIN)));
    assert_eq!(run("(/ -9223372036854775808i -1 2)", &mut env), Ok(integer(4611686018427387904)));
    assert_eq!(run("(* 4294967296 4294967296 0 5)", &mut env), Ok(integer(0)));
    assert_eq!(run("(* 4294967296 4294967296 4294967296 -1)", &mut env), Err(InterpError::Overflow));
}

#[test]
fn float_literals_pass_through_unchanged() {
    let mut env = Environment::new();
    assert_eq!(run("2.75", &mut env), Ok(float(2.75)));
    run("(define h 0.1)", &mut env).unwrap();
    assert_eq!(run("h", &mut env), Ok(float(0.1)));
}

#[test]
fn subtraction_and_division() {
    let mut env = Environment::new();
    assert_eq!(run("(- 10 3 2)", &mut env), Ok(integer(5)));
    assert_eq!(run("(- 5)", &mut env), Ok(integer(-5)));
    assert_eq!(run("(/ 7 2)", &mut env), Ok(integer(3)));
    assert_eq!(run("(/ -7 2)", &mut env), Ok(integer(-3)));
    assert_eq!(run("(/ 2)", &mut env), Ok(integer(0)));
    assert_eq!(run("(/ 1.0 4)", &mut env), Ok(float(0.25)));
}

#[test]
fn division_by_zero_is_reported() {
    let mut env = Environment::new();
    assert_eq!(run("(/ 1 0)", &mut env), Err(InterpError::DivisionByZero));
}

#[test]
fn empty_forms() {
    let mut env = Environment::new();
    assert_eq!(run("", &mut env), Err(InterpError::EmptyExpression));
    assert_eq!(run("()", &mut env), Err(InterpError::EmptyExpression));
    assert_eq!(run("(+)", &mut env), Ok(BasicType::Symbol("+".to_string())));
    assert_eq!(run("(-)", &mut env), Ok(BasicType::Symbol("-".to_string())));
    assert_eq!(run("(- 1 (-))", &mut env), Err(InterpError::TypeError));
}

#[test]
fn wrong_operand_counts() {
    let mut env = Environment::new();
    assert_eq!(run("(define x)", &mut env), Err(InterpError::WrongArity));
    assert_eq!(run("(define)", &mut env), Ok(BasicType::Symbol("define".to_string())));
}

#[test]
fn define_needs_a_symbol() {
    let mut env = Environment::new();
    assert_eq!(run("(define 5 6)", &mut env), Err(InterpError::NonSymbolAssignment));
}

#[test]
fn arithmetic_on_non_numbers_is_a_type_error() {
    let mut env = Environment::new();
    assert_eq!(run("(+ 1 #t)", &mut env), Err(InterpError::TypeError));
    assert_eq!(run("(* \"a\" 2)", &mut env), Err(InterpError::TypeError));
}

#[test]
fn unimplemented_operators_fail() {
    let mut env = Environment::new();
    assert_eq!(run("(< 1 2)", &mut env), Err(InterpError::NotYetImplemented(OperatorType::Lt)));
}

#[test]
fn non_operator_head_is_malformed() {
    let mut env = Environment::new();
    assert_eq!(run("(1 2)", &mut env), Err(InterpError::MalformedApplication));
    assert_eq!(run("(+ 1 2) (+ 3 4)", &mut env), Err(InterpError::MalformedApplication));
}

#[test]
fn top_level_without_parentheses_is_a_group() {
    let mut env = Environment::new();
    assert_eq!(run("+ 1 2", &mut env), Ok(integer(3)));
}

#[test]
fn binding_to_a_variable_is_unresolvable() {
    let mut env = Environment::new();
    env.variables.push(("x".to_string(), DataType::Variable("y".to_string())));
    assert_eq!(run("x", &mut env), Err(InterpError::UnresolvableBinding));
}

#[test]
fn lambda_literal_is_a_procedure() {
    let mut env = Environment::new();
    let expected = SExpr::Cons(
        Box::new(SExpr::Cons(
            Box::new(SExpr::Cons(
                Box::new(SExpr::Data(DataType::Variable("x".to_string()))),
                Box::new(SExpr::Data(DataType::Operator(OperatorType::Add))),
            )),
            Box::new(SExpr::Data(DataType::Variable("x".to_string()))),
        )),
        Box::new(SExpr::Data(DataType::Literal(integer(1)))),
    );
    assert_eq!(run("(lambda (x) (+ x 1))", &mut env), Ok(BasicType::Procedure(Box::new(expected))));
}

#[test]
fn malformed_lambda_is_rejected() {
    let mut env = Environment::new();
    assert_eq!(run("(lambda x (+ x 1))", &mut env), Err(InterpError::MalformedLambda));
    assert_eq!(run("(lambda (x) (1 x))", &mut env), Err(InterpError::MalformedLambda));
    assert_eq!(run("(lambda (x) (+ x (+ 1 2)))", &mut env), Err(InterpError::MalformedLambda));
    assert_eq!(run("(lambda (x) (+ x", &mut env), Err(InterpError::MalformedLambda));
}

#[test]
fn interp_renders_values() {
    let mut env = Environment::new();
    assert_eq!(interp("(+ 1 2)", &mut env, &Ieee), "3");
    assert_eq!(interp("(- 2 5)", &mut env, &Ieee), "-3");
    assert_eq!(interp("(+ 1.0 2)", &mut env, &Ieee), "3.0");
    assert_eq!(interp("(define x 5)", &mut env, &Ieee), "x");
    assert_eq!(interp("x", &mut env, &Ieee), "5");
    assert_eq!(interp("\"hi there\"", &mut env, &Ieee), "\"hi there\"");
    assert_eq!(interp("#t", &mut env, &Ieee), "#t");
    assert_eq!(interp("#\\a", &mut env, &Ieee), "#\\a");
    assert_eq!(interp("#\\space", &mut env, &Ieee), "#\\space");
    assert_eq!(interp("(lambda (x) (+ x 1))", &mut env, &Ieee), "#<procedure>");
}

#[test]
fn interp_renders_errors() {
    let mut env = Environment::new();
    assert_eq!(interp("y", &mut env, &Ieee), "Unbound variable: y");
    assert_eq!(interp("(+ 1 2", &mut env, &Ieee), "Unbalanced parentheses");
    assert_eq!(interp("(< 1 2)", &mut env, &Ieee), "Not yet implemented: <");
}
