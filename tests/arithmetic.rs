use risp::{add, car, cdr, def, lambda, lookup, mul, BasicType, DataType, Environment, FloatOps, InterpError, NumericType, OperatorType, SExpr};

struct Ieee;

impl FloatOps for Ieee {
    fn from_decimal(&self, text: &str) -> u64 {
        text.parse::<f64>().unwrap_or(f64::NAN).to_bits()
    }

    fn from_integer(&self, i: i64) -> u64 {
        (i as f64).to_bits()
    }

    fn add(&self, a: u64, b: u64) -> u64 {
        (f64::from_bits(a) + f64::from_bits(b)).to_bits()
    }

    fn sub(&self, a: u64, b: u64) -> u64 {
        (f64::from_bits(a) - f64::from_bits(b)).to_bits()
    }

    fn mul(&self, a: u64, b: u64) -> u64 {
        (f64::from_bits(a) * f64::from_bits(b)).to_bits()
    }

    fn div(&self, a: u64, b: u64) -> u64 {
        (f64::from_bits(a) / f64::from_bits(b)).to_bits()
    }

    fn render(&self, a: u64) -> String {
        format!("{:?}", f64::from_bits(a))
    }
}

fn integer(i: i64) -> BasicType {
    BasicType::Number(NumericType::Integer(i))
}

fn float(x: f64) -> BasicType {
    BasicType::Number(NumericType::Floating(x.to_bits()))
}

#[test]
fn integer_operands_stay_integer() {
    assert_eq!(add(&vec![integer(2), integer(3), integer(-1)], &Ieee), Ok(integer(4)));
    assert_eq!(mul(&vec![integer(2), integer(3), integer(-1)], &Ieee), Ok(integer(-6)));
    assert_eq!(add(&vec![], &Ieee), Ok(integer(0)));
    assert_eq!(mul(&vec![], &Ieee), Ok(integer(1)));
}

#[test]
fn one_float_promotes_the_whole_operation() {
    let expected_sum = 2.0f64 + 1.25 + 3.0;
    assert_eq!(add(&vec![integer(2), float(1.25), integer(3)], &Ieee), Ok(float(expected_sum)));
    let expected_product = 1.0f64 * 2.0 * 0.1 * 3.0;
    assert_eq!(mul(&vec![integer(2), float(0.1), integer(3)], &Ieee), Ok(float(expected_product)));
}

#[test]
fn arithmetic_rejects_non_numbers() {
    assert_eq!(add(&vec![integer(1), BasicType::Boolean(true)], &Ieee), Err(InterpError::TypeError));
    assert_eq!(mul(&vec![BasicType::Symbol("a".to_string())], &Ieee), Err(InterpError::TypeError));
}

#[test]
fn define_then_lookup_round_trip() {
    let mut env = Environment::new();
    let r = def(&vec![BasicType::Symbol("k".to_string()), float(1.5)], &mut env);
    assert_eq!(r, Ok(BasicType::Symbol("k".to_string())));
    assert_eq!(lookup(&"k".to_string(), &env), Ok(DataType::Literal(float(1.5))));
    assert_eq!(def(&vec![integer(1), integer(2)], &mut env), Err(InterpError::NonSymbolAssignment));
    assert_eq!(def(&vec![BasicType::Symbol("k".to_string())], &mut env), Err(InterpError::WrongArity));
}

#[test]
fn child_definitions_stay_in_the_child() {
    let mut parent = Environment::new();
    parent.define("outer".to_string(), DataType::Literal(integer(1)));
    let mut child = Environment::with_parent(parent);
    child.define("inner".to_string(), DataType::Literal(integer(2)));
    assert_eq!(lookup(&"outer".to_string(), &child), Ok(DataType::Literal(integer(1))));
    assert_eq!(lookup(&"inner".to_string(), &child), Ok(DataType::Literal(integer(2))));
    let parent = child.parent.as_ref().unwrap();
    assert_eq!(
        lookup(&"inner".to_string(), parent),
        Err(InterpError::UnboundVariable("inner".to_string()))
    );
    child.define("outer".to_string(), DataType::Literal(integer(3)));
    assert_eq!(lookup(&"outer".to_string(), &child), Ok(DataType::Literal(integer(3))));
    assert_eq!(lookup(&"outer".to_string(), child.parent.as_ref().unwrap()), Ok(DataType::Literal(integer(1))));
}

#[test]
fn lambda_passes_procedures_through() {
    let body = BasicType::Procedure(Box::new(SExpr::Nil));
    assert_eq!(lambda(&body), Ok(BasicType::Procedure(Box::new(SExpr::Nil))));
    assert_eq!(lambda(&integer(1)), Err(InterpError::MalformedLambda));
}

#[test]
fn car_and_cdr() {
    let op = SExpr::Data(DataType::Operator(OperatorType::Add));
    let five = SExpr::Data(DataType::Literal(integer(5)));
    let cell = SExpr::Cons(Box::new(op.clone()), Box::new(five.clone()));
    assert_eq!(car(&cell), Ok(op.clone()));
    assert_eq!(cdr(&cell), Ok(five));
    assert_eq!(car(&op), Ok(op.clone()));
    assert_eq!(cdr(&op), Err(false));
    assert_eq!(car(&SExpr::Nil), Err(false));
}
