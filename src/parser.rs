use vstd::prelude::*;
use crate::operator::OperatorType;
use crate::error::InterpError;
use crate::tokenize::{Token, TokenStream, tokenizes_from};
use crate::value::{
    BasicType,
    DataType,
    FloatOps,
    SExpr,
    TermModel,
    ValueModel,
    SExprModel,
    value_model,
    sexpr_model,
    copy_value,
};

verus! {

/// A parsed expression: a single term, or a parenthesized group of expressions.
#[derive(Debug, PartialEq, Eq)]
pub enum Expr {
    Atom(DataType),
    Group(Vec<Expr>),
}

/// The model of an expression.
pub enum ExprModel {
    Atom(TermModel),
    Group(Seq<ExprModel>),
}

pub open spec fn expr_model(e: Expr) -> ExprModel
    decreases e,
{
    match e {
        Expr::Atom(t) => ExprModel::Atom(crate::value::term_model(t)),
        Expr::Group(v) => ExprModel::Group(exprs_model(v@)),
    }
}

pub open spec fn exprs_model(s: Seq<Expr>) -> Seq<ExprModel>
    decreases s,
{
    if s.len() == 0 {
        Seq::empty()
    } else {
        exprs_model(s.subrange(0, s.len() - 1)).push(expr_model(s[s.len() - 1]))
    }
}

/// The models of the groups still open while parsing, outermost first.
pub type StackModel = Seq<Seq<ExprModel>>;

/// Adds a term to the innermost open group.
pub open spec fn push_atom(stack: StackModel, t: TermModel) -> StackModel {
    stack.update(stack.len() - 1, stack.last().push(ExprModel::Atom(t)))
}

/// Closes the innermost group and adds it to the group around it.
pub open spec fn close_group(stack: StackModel) -> StackModel {
    let rest = stack.drop_last();
    rest.update(rest.len() - 1, rest.last().push(ExprModel::Group(stack.last())))
}

/// A new cell holding what came before and one more term.
pub open spec fn extend(acc: SExprModel, t: TermModel) -> SExprModel {
    SExprModel::Cons(Box::new(acc), Box::new(SExprModel::Data(t)))
}

/// The body of a procedure literal from position `q` on, after its operator: terms up to
/// the closing parenthesis, each added as a new cell around what came before.
pub open spec fn lambda_body(toks: Seq<Token>, q: int, acc: SExprModel) -> Result<(SExprModel, int), InterpError>
    decreases toks.len() - q,
{
    if q < 0 || q >= toks.len() {
        Err(InterpError::MalformedLambda)
    } else {
        match toks[q] {
            Token::RParen => Ok((acc, q + 1)),
            Token::Operator(op) => lambda_body(toks, q + 1, extend(acc, TermModel::Operator(op))),
            Token::Literal(v) => lambda_body(toks, q + 1, extend(acc, TermModel::Literal(value_model(v)))),
            Token::Symbol(x) => lambda_body(toks, q + 1, extend(acc, TermModel::Variable(x))),
            _ => Err(InterpError::MalformedLambda),
        }
    }
}

/// A procedure literal after the `lambda` keyword, at position `p`: exactly
/// `(param) (op terms...)`. Gives the body and the position after it.
pub open spec fn lambda_from(toks: Seq<Token>, p: int) -> Result<(SExprModel, int), InterpError> {
    if 0 <= p && p + 5 <= toks.len() && toks[p] is LParen && toks[p + 1] is Symbol && toks[p + 2] is RParen
        && toks[p + 3] is LParen && toks[p + 4] is Operator {
        let param = TermModel::Variable(toks[p + 1]->Symbol_0);
        let op = TermModel::Operator(toks[p + 4]->Operator_0);
        lambda_body(
            toks,
            p + 5,
            SExprModel::Cons(Box::new(SExprModel::Data(param)), Box::new(SExprModel::Data(op))),
        )
    } else {
        Err(InterpError::MalformedLambda)
    }
}

/// Parsing from position `pos`, with the groups in `stack` open. Input that ends with
/// only the outermost level open yields its expressions.
pub open spec fn parse_from(toks: Seq<Token>, pos: int, stack: StackModel) -> Result<Seq<ExprModel>, InterpError>
    decreases toks.len() - pos,
{
    if pos < 0 || stack.len() == 0 {
        Err(InterpError::UnbalancedParentheses)
    } else if pos >= toks.len() {
        if stack.len() == 1 {
            Ok(stack[0])
        } else {
            Err(InterpError::UnbalancedParentheses)
        }
    } else {
        match toks[pos] {
            Token::LParen => parse_from(toks, pos + 1, stack.push(Seq::empty())),
            Token::RParen => if stack.len() <= 1 {
                Err(InterpError::UnbalancedParentheses)
            } else {
                parse_from(toks, pos + 1, close_group(stack))
            },
            Token::Operator(OperatorType::Lambda) => match lambda_from(toks, pos + 1) {
                Ok((body, next)) => if pos < next <= toks.len() {
                    parse_from(
                        toks,
                        next,
                        push_atom(
                            push_atom(stack, TermModel::Operator(OperatorType::Lambda)),
                            TermModel::Literal(ValueModel::Procedure(Box::new(body))),
                        ),
                    )
                } else {
                    Err(InterpError::MalformedLambda)
                },
                Err(e) => Err(e),
            },
            Token::Operator(op) => parse_from(toks, pos + 1, push_atom(stack, TermModel::Operator(op))),
            Token::Literal(v) => parse_from(toks, pos + 1, push_atom(stack, TermModel::Literal(value_model(v)))),
            Token::Symbol(x) => parse_from(toks, pos + 1, push_atom(stack, TermModel::Variable(x))),
            _ => Err(InterpError::InvalidToken),
        }
    }
}

/// The expressions of a whole token sequence.
pub open spec fn spec_parse(toks: Seq<Token>) -> Result<Seq<ExprModel>, InterpError> {
    parse_from(toks, 0, seq![Seq::empty()])
}

proof fn lemma_lambda_body_advances(toks: Seq<Token>, q: int, acc: SExprModel)
    ensures
        lambda_body(toks, q, acc) matches Ok((_, next)) ==> q < next <= toks.len(),
    decreases toks.len() - q,
{
    if 0 <= q < toks.len() {
        match toks[q] {
            Token::Operator(op) => lemma_lambda_body_advances(toks, q + 1, extend(acc, TermModel::Operator(op))),
            Token::Literal(v) => lemma_lambda_body_advances(toks, q + 1, extend(acc, TermModel::Literal(value_model(v)))),
            Token::Symbol(x) => lemma_lambda_body_advances(toks, q + 1, extend(acc, TermModel::Variable(x))),
            _ => {},
        }
    }
}

/// Reads a procedure literal, `(param) (op terms...)`, from position `pos` of the tokens
/// that follow a `lambda` keyword. Returns the body as nested cells, innermost
/// `(param . op)`, and the position after the literal.
pub fn build_lambda(tokens: &Vec<Token>, pos: usize) -> (r: Result<(SExpr, usize), InterpError>)
    ensures
        match lambda_from(tokens@, pos as int) {
            Ok((body, next)) => r matches Ok((s, n)) && sexpr_model(s) == body && n == next,
            Err(e) => r == Err::<(SExpr, usize), InterpError>(e),
        },
{
    let n = tokens.len();
    if pos > n || n - pos < 5 {
        return Err(InterpError::MalformedLambda);
    }
    if !matches!(tokens[pos], Token::LParen) {
        return Err(InterpError::MalformedLambda);
    }
    let param = match &tokens[pos + 1] {
        Token::Symbol(x) => DataType::Variable(x.clone()),
        _ => return Err(InterpError::MalformedLambda),
    };
    if !matches!(tokens[pos + 2], Token::RParen) || !matches!(tokens[pos + 3], Token::LParen) {
        return Err(InterpError::MalformedLambda);
    }
    let op = match &tokens[pos + 4] {
        Token::Operator(op) => *op,
        _ => return Err(InterpError::MalformedLambda),
    };
    assert(sexpr_model(SExpr::Data(param)) == SExprModel::Data(crate::value::term_model(param)));
    assert(crate::value::term_model(DataType::Operator(op)) == TermModel::Operator(op));
    assert(sexpr_model(SExpr::Data(DataType::Operator(op))) == SExprModel::Data(TermModel::Operator(op)));
    let mut procedure = SExpr::Cons(Box::new(SExpr::Data(param)), Box::new(SExpr::Data(DataType::Operator(op))));
    assert(sexpr_model(procedure) == SExprModel::Cons(
        Box::new(SExprModel::Data(crate::value::term_model(param))),
        Box::new(SExprModel::Data(TermModel::Operator(op))),
    ));
    let mut q: usize = pos + 5;
    while q < n
        invariant
            n == tokens@.len(),
            pos + 5 <= q <= n,
            lambda_from(tokens@, pos as int) == lambda_body(tokens@, q as int, sexpr_model(procedure)),
        decreases n - q,
    {
        let term = match &tokens[q] {
            Token::RParen => return Ok((procedure, q + 1)),
            Token::Operator(op) => DataType::Operator(*op),
            Token::Literal(v) => DataType::Literal(copy_value(v)),
            Token::Symbol(x) => DataType::Variable(x.clone()),
            _ => return Err(InterpError::MalformedLambda),
        };
        let ghost before = sexpr_model(procedure);
        assert(lambda_body(tokens@, q as int, before) == lambda_body(
            tokens@,
            q + 1,
            extend(before, crate::value::term_model(term)),
        ));
        assert(sexpr_model(SExpr::Data(term)) == SExprModel::Data(crate::value::term_model(term)));
        procedure = SExpr::Cons(Box::new(procedure), Box::new(SExpr::Data(term)));
        assert(sexpr_model(procedure) == extend(before, crate::value::term_model(term)));
        q = q + 1;
    }
    Err(InterpError::MalformedLambda)
}

pub open spec fn stack_model(stack: Seq<Vec<Expr>>) -> StackModel {
    stack.map_values(|v: Vec<Expr>| exprs_model(v@))
}

proof fn lemma_exprs_model_push(s: Seq<Expr>, x: Expr)
    ensures
        exprs_model(s.push(x)) == exprs_model(s).push(expr_model(x)),
{
    assert(s.push(x).subrange(0, s.len() as int) == s);
}

/// Adds a term to the innermost open group.
fn push_term(stack: &mut Vec<Vec<Expr>>, t: DataType)
    requires
        old(stack)@.len() >= 1,
    ensures
        final(stack)@.len() == old(stack)@.len(),
        stack_model(final(stack)@) == push_atom(stack_model(old(stack)@), crate::value::term_model(t)),
{
    let ghost before = stack@;
    let mut top = match stack.pop() {
        Some(top) => top,
        None => Vec::new(),
    };
    let ghost top0 = top@;
    assert(expr_model(Expr::Atom(t)) == ExprModel::Atom(crate::value::term_model(t)));
    top.push(Expr::Atom(t));
    proof {
        lemma_exprs_model_push(top0, Expr::Atom(t));
    }
    stack.push(top);
    assert(stack_model(stack@) =~= push_atom(stack_model(before), crate::value::term_model(t)));
}

/// Closes the innermost open group and adds it to the one around it.
fn close_innermost(stack: &mut Vec<Vec<Expr>>)
    requires
        old(stack)@.len() >= 2,
    ensures
        final(stack)@.len() == old(stack)@.len() - 1,
        stack_model(final(stack)@) == close_group(stack_model(old(stack)@)),
{
    let ghost before = stack@;
    let child = match stack.pop() {
        Some(c) => c,
        None => Vec::new(),
    };
    let mut parent = match stack.pop() {
        Some(p) => p,
        None => Vec::new(),
    };
    let ghost parent0 = parent@;
    assert(expr_model(Expr::Group(child)) == ExprModel::Group(exprs_model(child@)));
    proof {
        lemma_exprs_model_push(parent0, Expr::Group(child));
    }
    parent.push(Expr::Group(child));
    stack.push(parent);
    assert(stack_model(stack@) =~= close_group(stack_model(before)));
}

/// Builds the expressions of a token sequence: parenthesized groups nest, a `lambda`
/// keyword is followed by its procedure literal, and the outermost level is a group
/// without parentheses.
pub fn parse_tokens(tokens: &Vec<Token>) -> (r: Result<Vec<Expr>, InterpError>)
    ensures
        match spec_parse(tokens@) {
            Ok(items) => r matches Ok(v) && exprs_model(v@) == items,
            Err(e) => r == Err::<Vec<Expr>, InterpError>(e),
        },
{
    let n = tokens.len();
    let mut stack: Vec<Vec<Expr>> = Vec::new();
    stack.push(Vec::new());
    assert(stack_model(stack@) =~= seq![Seq::<ExprModel>::empty()]);
    let mut pos: usize = 0;
    while pos < n
        invariant
            n == tokens@.len(),
            pos <= n,
            stack@.len() >= 1,
            spec_parse(tokens@) == parse_from(tokens@, pos as int, stack_model(stack@)),
        decreases n - pos,
    {
        let ghost sm = stack_model(stack@);
        match &tokens[pos] {
            Token::LParen => {
                stack.push(Vec::new());
                assert(stack_model(stack@) =~= sm.push(Seq::empty()));
                pos = pos + 1;
            },
            Token::RParen => {
                if stack.len() <= 1 {
                    return Err(InterpError::UnbalancedParentheses);
                }
                close_innermost(&mut stack);
                pos = pos + 1;
            },
            Token::Operator(OperatorType::Lambda) => {
                match build_lambda(tokens, pos + 1) {
                    Ok((body, next)) => {
                        proof {
                            let p = pos + 1;
                            let param = TermModel::Variable(tokens@[p + 1]->Symbol_0);
                            let op = TermModel::Operator(tokens@[p + 4]->Operator_0);
                            lemma_lambda_body_advances(
                                tokens@,
                                p + 5,
                                SExprModel::Cons(Box::new(SExprModel::Data(param)), Box::new(SExprModel::Data(op))),
                            );
                        }
                        push_term(&mut stack, DataType::Operator(OperatorType::Lambda));
                        let ghost body_model = sexpr_model(body);
                        let proc = BasicType::Procedure(Box::new(body));
                        assert(value_model(proc) == ValueModel::Procedure(Box::new(body_model)));
                        assert(crate::value::term_model(DataType::Literal(proc)) == TermModel::Literal(value_model(proc)));
                        push_term(&mut stack, DataType::Literal(proc));
                        pos = next;
                    },
                    Err(e) => {
                        return Err(e);
                    },
                }
            },
            Token::Operator(op) => {
                push_term(&mut stack, DataType::Operator(*op));
                pos = pos + 1;
            },
            Token::Literal(v) => {
                let v2 = copy_value(v);
                assert(crate::value::term_model(DataType::Literal(v2)) == TermModel::Literal(value_model(v2)));
                push_term(&mut stack, DataType::Literal(v2));
                pos = pos + 1;
            },
            Token::Symbol(x) => {
                push_term(&mut stack, DataType::Variable(x.clone()));
                pos = pos + 1;
            },
            _ => {
                return Err(InterpError::InvalidToken);
            },
        }
    }
    if stack.len() != 1 {
        return Err(InterpError::UnbalancedParentheses);
    }
    match stack.pop() {
        Some(items) => Ok(items),
        None => Err(InterpError::UnbalancedParentheses),
    }
}

/// Reads the rest of a token stream and builds its expressions.
pub fn parse<F: FloatOps>(tokens: &mut TokenStream, ops: &F) -> (r: Result<Vec<Expr>, InterpError>)
    ensures
        exists|toks: Seq<Token>|
            {
                &&& tokenizes_from(old(tokens).text@, old(tokens).index as int, toks)
                &&& match spec_parse(toks) {
                    Ok(items) => r matches Ok(v) && exprs_model(v@) == items,
                    Err(e) => r == Err::<Vec<Expr>, InterpError>(e),
                }
            },
{
    let all = tokens.collect_tokens(ops);
    let r = parse_tokens(&all);
    assert(tokenizes_from(old(tokens).text@, old(tokens).index as int, all@));
    r
}

} // verus!
