use vstd::prelude::*;
use crate::operator::OperatorType;

verus! {

/// A number: a signed machine integer, or a 64-bit IEEE float held as its bit pattern.
#[derive(Clone, Copy, Debug, PartialEq, Eq)]
pub enum NumericType {
    Integer(i64),
    Floating(u64),
}

/// A runtime value.
#[derive(Debug, PartialEq, Eq)]
pub enum BasicType {
    Boolean(bool),
    Character(char),
    Number(NumericType),
    Text(String),
    Symbol(String),
    Pair(Box<BasicType>, Box<BasicType>),
    Procedure(Box<SExpr>),
}

/// One term of an expression: a keyword, a value written out, or a name.
#[derive(Debug, PartialEq, Eq)]
pub enum DataType {
    Operator(OperatorType),
    Literal(BasicType),
    Variable(String),
}

/// A cons-cell structure of terms; the body of a procedure literal is one.
#[derive(Debug, PartialEq, Eq)]
pub enum SExpr {
    Data(DataType),
    Cons(Box<SExpr>, Box<SExpr>),
    Nil,
}

/// A number as the evaluator sees it: an integer, or a float by its bit pattern.
pub enum NumModel {
    Integer(int),
    Floating(u64),
}

/// The model of a value, with strings as character sequences.
pub enum ValueModel {
    Boolean(bool),
    Character(char),
    Number(NumModel),
    Text(Seq<char>),
    Symbol(Seq<char>),
    Pair(Box<ValueModel>, Box<ValueModel>),
    Procedure(Box<SExprModel>),
}

/// The model of a term. A variable keeps its name as written, for error reports.
pub enum TermModel {
    Operator(OperatorType),
    Literal(ValueModel),
    Variable(String),
}

/// The model of a cons-cell structure.
pub enum SExprModel {
    Data(TermModel),
    Cons(Box<SExprModel>, Box<SExprModel>),
    Nil,
}

pub open spec fn num_model(n: NumericType) -> NumModel {
    match n {
        NumericType::Integer(i) => NumModel::Integer(i as int),
        NumericType::Floating(b) => NumModel::Floating(b),
    }
}

pub open spec fn value_model(v: BasicType) -> ValueModel
    decreases v,
{
    match v {
        BasicType::Boolean(b) => ValueModel::Boolean(b),
        BasicType::Character(c) => ValueModel::Character(c),
        BasicType::Number(n) => ValueModel::Number(num_model(n)),
        BasicType::Text(s) => ValueModel::Text(s@),
        BasicType::Symbol(s) => ValueModel::Symbol(s@),
        BasicType::Pair(a, b) => ValueModel::Pair(
            Box::new(value_model(*a)),
            Box::new(value_model(*b)),
        ),
        BasicType::Procedure(body) => ValueModel::Procedure(Box::new(sexpr_model(*body))),
    }
}

pub open spec fn term_model(t: DataType) -> TermModel
    decreases t,
{
    match t {
        DataType::Operator(op) => TermModel::Operator(op),
        DataType::Literal(v) => TermModel::Literal(value_model(v)),
        DataType::Variable(s) => TermModel::Variable(s),
    }
}

pub open spec fn sexpr_model(s: SExpr) -> SExprModel
    decreases s,
{
    match s {
        SExpr::Data(t) => SExprModel::Data(term_model(t)),
        SExpr::Cons(a, b) => SExprModel::Cons(Box::new(sexpr_model(*a)), Box::new(sexpr_model(*b))),
        SExpr::Nil => SExprModel::Nil,
    }
}

impl View for BasicType {
    type V = ValueModel;

    open spec fn view(&self) -> ValueModel {
        value_model(*self)
    }
}

impl View for DataType {
    type V = TermModel;

    open spec fn view(&self) -> TermModel {
        term_model(*self)
    }
}

impl View for SExpr {
    type V = SExprModel;

    open spec fn view(&self) -> SExprModel {
        sexpr_model(*self)
    }
}

/// The models of a sequence of terms.
pub open spec fn terms_model(ts: Seq<DataType>) -> Seq<TermModel> {
    ts.map_values(|t: DataType| term_model(t))
}

/// The models of a sequence of values.
pub open spec fn values_model(vs: Seq<BasicType>) -> Seq<ValueModel> {
    vs.map_values(|v: BasicType| value_model(v))
}

pub fn copy_value(v: &BasicType) -> (r: BasicType)
    ensures
        r == *v,
    decreases v,
{
    match v {
        BasicType::Boolean(b) => BasicType::Boolean(*b),
        BasicType::Character(c) => BasicType::Character(*c),
        BasicType::Number(n) => BasicType::Number(*n),
        BasicType::Text(s) => BasicType::Text(s.clone()),
        BasicType::Symbol(s) => BasicType::Symbol(s.clone()),
        BasicType::Pair(a, b) => BasicType::Pair(
            Box::new(copy_value(a)),
            Box::new(copy_value(b)),
        ),
        BasicType::Procedure(body) => BasicType::Procedure(Box::new(copy_sexpr(body))),
    }
}

pub fn copy_term(t: &DataType) -> (r: DataType)
    ensures
        r == *t,
    decreases t,
{
    match t {
        DataType::Operator(op) => DataType::Operator(*op),
        DataType::Literal(v) => DataType::Literal(copy_value(v)),
        DataType::Variable(s) => DataType::Variable(s.clone()),
    }
}

pub fn copy_sexpr(s: &SExpr) -> (r: SExpr)
    ensures
        r == *s,
    decreases s,
{
    match s {
        SExpr::Data(t) => SExpr::Data(copy_term(t)),
        SExpr::Cons(a, b) => SExpr::Cons(Box::new(copy_sexpr(a)), Box::new(copy_sexpr(b))),
        SExpr::Nil => SExpr::Nil,
    }
}

impl Clone for BasicType {
    fn clone(&self) -> (r: Self)
        ensures
            r == *self,
    {
        copy_value(self)
    }
}

impl Clone for DataType {
    fn clone(&self) -> (r: Self)
        ensures
            r == *self,
    {
        copy_term(self)
    }
}

impl Clone for SExpr {
    fn clone(&self) -> (r: Self)
        ensures
            r == *self,
    {
        copy_sexpr(self)
    }
}

/// The first part of a cell: the datum itself for an atom, the left side of a pair.
/// Fails on the empty list.
pub fn car(sexpr: &SExpr) -> (r: Result<SExpr, bool>)
    ensures
        match *sexpr {
            SExpr::Data(_) => r == Ok::<SExpr, bool>(*sexpr),
            SExpr::Cons(a, _) => r == Ok::<SExpr, bool>(*a),
            SExpr::Nil => r == Err::<SExpr, bool>(false),
        },
{
    match sexpr {
        SExpr::Data(t) => Ok(SExpr::Data(copy_term(t))),
        SExpr::Cons(a, _) => Ok(copy_sexpr(a)),
        SExpr::Nil => Err(false),
    }
}

/// The second part of a pair; fails on an atom and on the empty list.
pub fn cdr(sexpr: &SExpr) -> (r: Result<SExpr, bool>)
    ensures
        match *sexpr {
            SExpr::Cons(_, b) => r == Ok::<SExpr, bool>(*b),
            _ => r == Err::<SExpr, bool>(false),
        },
{
    match sexpr {
        SExpr::Cons(_, b) => Ok(copy_sexpr(b)),
        _ => Err(false),
    }
}

/// Floating-point arithmetic, on values held as IEEE-754 bit patterns.
/// The evaluator decides when a computation is carried out in floating point;
/// the operations themselves come from an implementation of this trait.
pub trait FloatOps {
    /// The float nearest to a decimal literal: an optional `-`, digits, at most one `.`,
    /// and at least one digit.
    fn from_decimal(&self, text: &str) -> u64;

    /// The float nearest to an integer.
    fn from_integer(&self, i: i64) -> u64;

    fn add(&self, a: u64, b: u64) -> u64;

    fn sub(&self, a: u64, b: u64) -> u64;

    fn mul(&self, a: u64, b: u64) -> u64;

    fn div(&self, a: u64, b: u64) -> u64;

    /// The decimal text of a float.
    fn render(&self, a: u64) -> String;
}

} // verus!
