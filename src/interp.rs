use vstd::prelude::*;
use crate::error::InterpError;
use crate::env::Environment;
use crate::eval::{eval, result_model};
use crate::semantics::{EnvModel, env_model, frame_model, eval_m, lemma_eval_model};
use crate::tokenize::{Token, TokenStream, tokenizes, tokenizes_from, string_of};
use crate::error::spec_message;
use crate::value::{NumericType, NumModel, copy_value};
use vstd::string::*;
use crate::parser::{Expr, ExprModel, expr_model, exprs_model, parse, spec_parse};
use crate::value::{BasicType, DataType, FloatOps, ValueModel, TermModel, term_model, terms_model, copy_term};
use crate::eval::result_bits;

verus! {

/// The floats that the floating-point computations of one group came to: `bits` for the
/// group's own application, and one entry per member for the groups nested in it.
pub struct FloatLog {
    pub bits: u64,
    pub members: Seq<FloatLog>,
}

/// The terms of a group, with each nested group replaced by its value; nested groups are
/// evaluated from left to right, each in the environment the previous one left. `logs[k]`
/// holds the floats of the `k`-th member.
pub open spec fn collect_m(cs: Seq<ExprModel>, env: EnvModel, logs: Seq<FloatLog>) -> (
    Result<Seq<TermModel>, InterpError>,
    EnvModel,
)
    decreases cs,
{
    if cs.len() == 0 {
        (Ok(Seq::empty()), env)
    } else {
        let (r0, e0) = collect_m(cs.subrange(0, cs.len() - 1), env, logs);
        match r0 {
            Err(x) => (Err(x), e0),
            Ok(ts) => match cs[cs.len() - 1] {
                ExprModel::Atom(t) => (Ok(ts.push(t)), e0),
                ExprModel::Group(gs) => {
                    let log = logs[cs.len() - 1];
                    let (r1, e1) = collect_m(gs, e0, log.members);
                    match r1 {
                        Err(x) => (Err(x), e1),
                        Ok(inner) => {
                            let (v, e2) = eval_m(inner, e1, log.bits);
                            match v {
                                Ok(v) => (Ok(ts.push(TermModel::Literal(v))), e2),
                                Err(x) => (Err(x), e2),
                            }
                        },
                    }
                },
            },
        }
    }
}

/// The value of a group of expressions, evaluated bottom-up, and the environment after it.
pub open spec fn eval_items_m(items: Seq<ExprModel>, env: EnvModel, log: FloatLog) -> (
    Result<ValueModel, InterpError>,
    EnvModel,
) {
    let (r, e) = collect_m(items, env, log.members);
    match r {
        Ok(ts) => eval_m(ts, e, log.bits),
        Err(x) => (Err(x), e),
    }
}

/// What interpreting a token sequence yields, and the environment after it.
pub open spec fn interp_m(toks: Seq<Token>, env: EnvModel, log: FloatLog) -> (
    Result<ValueModel, InterpError>,
    EnvModel,
) {
    match spec_parse(toks) {
        Err(e) => (Err(e), env),
        Ok(items) => eval_items_m(items, env, log),
    }
}

proof fn lemma_exprs_model_index(s: Seq<Expr>)
    ensures
        exprs_model(s).len() == s.len(),
        forall|k: int| 0 <= k < s.len() ==> exprs_model(s)[k] == expr_model(#[trigger] s[k]),
    decreases s.len(),
{
    if s.len() > 0 {
        let t = s.subrange(0, s.len() - 1);
        lemma_exprs_model_index(t);
        assert forall|k: int| 0 <= k < s.len() implies exprs_model(s)[k] == expr_model(#[trigger] s[k]) by {
            if k < s.len() - 1 {
                assert(s[k] == t[k]);
            }
        }
    }
}

/// What collecting the terms of the group `cs` gave: `r` and the environment `after`
/// agree with `collect_m` for the floats in `logs`.
pub open spec fn collect_outcome(
    cs: Seq<ExprModel>,
    env: EnvModel,
    logs: Seq<FloatLog>,
    r: Result<Vec<DataType>, InterpError>,
    after: EnvModel,
) -> bool {
    let (m, e) = collect_m(cs, env, logs);
    &&& after == e
    &&& match m {
        Ok(ts) => r matches Ok(v) && terms_model(v@) == ts,
        Err(x) => r == Err::<Vec<DataType>, InterpError>(x),
    }
}

proof fn lemma_collect_frame(cs: Seq<ExprModel>, env: EnvModel, l1: Seq<FloatLog>, l2: Seq<FloatLog>)
    requires
        l1.len() >= cs.len(),
        l2.len() >= cs.len(),
        forall|k: int| 0 <= k < cs.len() ==> l1[k] == l2[k],
    ensures
        collect_m(cs, env, l1) == collect_m(cs, env, l2),
    decreases cs,
{
    if cs.len() > 0 {
        lemma_collect_frame(cs.subrange(0, cs.len() - 1), env, l1, l2);
    }
}

/// The terms of a group: atoms as they stand, nested groups replaced by their values.
fn collect_terms<F: FloatOps>(items: &Vec<Expr>, env: &mut Environment, ops: &F) -> (r: Result<Vec<DataType>, InterpError>)
    ensures
        exists|logs: Seq<FloatLog>|
            collect_outcome(exprs_model(items@), env_model(*old(env)), logs, r, env_model(*final(env))),
    decreases items@,
{
    let ghost cs = exprs_model(items@);
    let ghost env0 = env_model(*env);
    proof {
        lemma_exprs_model_index(items@);
    }
    let n = items.len();
    let mut out: Vec<DataType> = Vec::new();
    let ghost mut logs: Seq<FloatLog> = Seq::empty();
    let mut i: usize = 0;
    assert(cs.subrange(0, 0) =~= Seq::<ExprModel>::empty());
    assert(terms_model(out@) =~= Seq::<TermModel>::empty());
    while i < n
        invariant
            n == items@.len(),
            i <= n,
            cs == exprs_model(items@),
            cs.len() == n,
            forall|k: int| 0 <= k < n ==> cs[k] == expr_model(#[trigger] items@[k]),
            env0 == env_model(*old(env)),
            logs.len() == i,
            collect_m(cs.subrange(0, i as int), env0, logs) == (
                Ok::<Seq<TermModel>, InterpError>(terms_model(out@)),
                env_model(*env),
            ),
        decreases n - i,
    {
        let ghost pre = cs.subrange(0, i + 1);
        assert(pre.subrange(0, i as int) == cs.subrange(0, i as int));
        assert(pre[i as int] == expr_model(items@[i as int]));
        let ghost prev = out@;
        match &items[i] {
            Expr::Atom(t) => {
                let ghost next_logs = logs.push(FloatLog { bits: 0, members: Seq::empty() });
                proof {
                    lemma_collect_frame(cs.subrange(0, i as int), env0, logs, next_logs);
                }
                out.push(copy_term(t));
                assert(terms_model(out@) =~= terms_model(prev).push(term_model(*t)));
                proof {
                    logs = next_logs;
                }
            },
            Expr::Group(gs) => {
                assert(decreases_to!(items@ => gs@));
                let ghost before_inner = env_model(*env);
                let inner_r = collect_terms(gs, env, ops);
                let ghost cl = choose|l: Seq<FloatLog>|
                    collect_outcome(exprs_model(gs@), before_inner, l, inner_r, env_model(*env));
                let inner = match inner_r {
                    Ok(inner) => inner,
                    Err(x) => {
                        proof {
                            let next_logs = logs.push(FloatLog { bits: 0, members: cl });
                            lemma_collect_frame(cs.subrange(0, i as int), env0, logs, next_logs);
                            assert(collect_m(pre, env0, next_logs).0 == Err::<Seq<TermModel>, InterpError>(x));
                            lemma_collect_error_sticks(cs, env0, next_logs, i as int + 1);
                            assert(collect_outcome(cs, env0, next_logs, Err(x), env_model(*env)));
                        }
                        return Err(x);
                    },
                };
                let ghost before_eval = *env;
                let v = eval(&inner, env, ops);
                let ghost f = result_bits(v);
                let ghost next_logs = logs.push(FloatLog { bits: f, members: cl });
                proof {
                    lemma_eval_model(inner@, before_eval, *env, f);
                    lemma_collect_frame(cs.subrange(0, i as int), env0, logs, next_logs);
                }
                match v {
                    Ok(v) => {
                        assert(term_model(DataType::Literal(v)) == TermModel::Literal(crate::value::value_model(v)));
                        out.push(DataType::Literal(v));
                        assert(terms_model(out@) =~= terms_model(prev).push(term_model(DataType::Literal(v))));
                        proof {
                            logs = next_logs;
                        }
                    },
                    Err(x) => {
                        proof {
                            assert(collect_m(pre, env0, next_logs).0 == Err::<Seq<TermModel>, InterpError>(x));
                            lemma_collect_error_sticks(cs, env0, next_logs, i as int + 1);
                            assert(collect_outcome(cs, env0, next_logs, Err(x), env_model(*env)));
                        }
                        return Err(x);
                    },
                }
            },
        }
        i = i + 1;
    }
    assert(cs.subrange(0, n as int) == cs);
    assert(collect_outcome(cs, env0, logs, Ok(out), env_model(*env)));
    Ok(out)
}

proof fn lemma_collect_error_sticks(cs: Seq<ExprModel>, env: EnvModel, logs: Seq<FloatLog>, k: int)
    requires
        0 <= k <= cs.len(),
        collect_m(cs.subrange(0, k), env, logs).0 is Err,
    ensures
        collect_m(cs, env, logs) == collect_m(cs.subrange(0, k), env, logs),
    decreases cs.len(),
{
    if k < cs.len() {
        let t = cs.subrange(0, cs.len() - 1);
        assert(t.subrange(0, k) == cs.subrange(0, k));
        lemma_collect_error_sticks(t, env, logs, k);
    } else {
        assert(cs.subrange(0, k) == cs);
    }
}

/// Evaluates a group of expressions bottom-up: each nested group first, from left to
/// right, then the group's own terms.
pub fn eval_items<F: FloatOps>(items: &Vec<Expr>, env: &mut Environment, ops: &F) -> (r: Result<BasicType, InterpError>)
    ensures
        exists|log: FloatLog|
            (result_model(r), env_model(*final(env))) == #[trigger] eval_items_m(
                exprs_model(items@),
                env_model(*old(env)),
                log,
            ),
{
    let ghost env0 = env_model(*env);
    let collected = collect_terms(items, env, ops);
    let ghost logs = choose|l: Seq<FloatLog>|
        collect_outcome(exprs_model(items@), env0, l, collected, env_model(*env));
    match collected {
        Ok(terms) => {
            let ghost before = *env;
            let r = eval(&terms, env, ops);
            proof {
                lemma_eval_model(terms@, before, *env, result_bits(r));
                let log = FloatLog { bits: result_bits(r), members: logs };
                assert((result_model(r), env_model(*env)) == eval_items_m(exprs_model(items@), env0, log));
            }
            r
        },
        Err(x) => {
            proof {
                let log = FloatLog { bits: 0, members: logs };
                assert((result_model(Err(x)), env_model(*env)) == eval_items_m(exprs_model(items@), env0, log));
            }
            Err(x)
        },
    }
}

/// Two scope chains that hold the same bindings, scope by scope.
pub open spec fn same_scopes(a: Environment, b: Environment) -> bool
    decreases a,
{
    &&& a.variables@ == b.variables@
    &&& match (a.parent, b.parent) {
        (Some(p), Some(q)) => same_scopes(*p, *q),
        (None, None) => true,
        _ => false,
    }
}

/// A copy of a scope chain, binding for binding.
pub fn copy_env(env: &Environment) -> (r: Environment)
    ensures
        same_scopes(r, *env),
        env_model(r) == env_model(*env),
    decreases env,
{
    let n = env.variables.len();
    let mut variables: Vec<(String, DataType)> = Vec::new();
    let mut i: usize = 0;
    while i < n
        invariant
            n == env.variables@.len(),
            i <= n,
            variables@ == env.variables@.subrange(0, i as int),
        decreases n - i,
    {
        let (name, t) = (&env.variables[i].0, &env.variables[i].1);
        variables.push((name.clone(), copy_term(t)));
        assert(variables@ =~= env.variables@.subrange(0, i + 1));
        i = i + 1;
    }
    assert(variables@ =~= env.variables@);
    let parent = match &env.parent {
        Some(p) => Some(Box::new(copy_env(p))),
        None => None,
    };
    let r = Environment { variables, parent };
    assert(env_model(r) =~= env_model(*env));
    r
}

/// What interpreting `s` in `before` gives: `r`, and the environment `after`. The text's
/// tokens are parsed and evaluated as `interp_m` says, for the floats that the
/// floating-point computations came to; a failure leaves the environment as it was.
pub open spec fn interpret_outcome(
    s: Seq<char>,
    before: Environment,
    r: Result<BasicType, InterpError>,
    after: Environment,
) -> bool {
    exists|toks: Seq<Token>, log: FloatLog|
        #![trigger interp_m(toks, env_model(before), log)]
        {
            &&& tokenizes(s, toks)
            &&& result_model(r) == interp_m(toks, env_model(before), log).0
            &&& r is Ok ==> env_model(after) == interp_m(toks, env_model(before), log).1
            &&& r is Err ==> after == before
        }
}

/// Reads and evaluates a source text. The environment changes only when the whole
/// evaluation succeeds; on a failure it is left as it was.
pub fn interpret<F: FloatOps>(source: &str, env: &mut Environment, ops: &F) -> (r: Result<BasicType, InterpError>)
    ensures
        interpret_outcome(source@, *old(env), r, *final(env)),
{
    let mut stream = TokenStream::new(source);
    let parsed = parse(&mut stream, ops);
    let ghost toks = choose|toks: Seq<Token>|
        {
            &&& tokenizes_from(source@, 0, toks)
            &&& match spec_parse(toks) {
                Ok(items) => parsed matches Ok(v) && exprs_model(v@) == items,
                Err(e) => parsed == Err::<Vec<Expr>, InterpError>(e),
            }
        };
    assert(tokenizes(source@, toks));
    let items = match parsed {
        Ok(items) => items,
        Err(e) => {
            assert(result_model(Err(e)) == interp_m(toks, env_model(*env), FloatLog { bits: 0, members: Seq::empty() }).0);
            return Err(e);
        },
    };
    let ghost before = *env;
    let mut work = copy_env(env);
    let r = eval_items(&items, &mut work, ops);
    let ghost log = choose|log: FloatLog|
        (result_model(r), env_model(work)) == eval_items_m(exprs_model(items@), env_model(before), log);
    assert(result_model(r) == interp_m(toks, env_model(before), log).0);
    match r {
        Ok(v) => {
            *env = work;
            Ok(v)
        },
        Err(e) => Err(e),
    }
}

/// A value that holds no float where its text shows.
pub open spec fn float_free(v: ValueModel) -> bool
    decreases v,
{
    match v {
        ValueModel::Number(NumModel::Floating(_)) => false,
        ValueModel::Pair(a, b) => float_free(*a) && float_free(*b),
        _ => true,
    }
}

pub open spec fn digit_char(d: nat) -> char {
    if d == 0 { '0' }
    else if d == 1 { '1' }
    else if d == 2 { '2' }
    else if d == 3 { '3' }
    else if d == 4 { '4' }
    else if d == 5 { '5' }
    else if d == 6 { '6' }
    else if d == 7 { '7' }
    else if d == 8 { '8' }
    else { '9' }
}

fn digit(d: u64) -> (c: char)
    requires
        d < 10,
    ensures
        c == digit_char(d as nat),
{
    if d == 0 { '0' }
    else if d == 1 { '1' }
    else if d == 2 { '2' }
    else if d == 3 { '3' }
    else if d == 4 { '4' }
    else if d == 5 { '5' }
    else if d == 6 { '6' }
    else if d == 7 { '7' }
    else if d == 8 { '8' }
    else { '9' }
}

/// The decimal digits of a natural number.
pub open spec fn decimal_digits(n: nat) -> Seq<char>
    decreases n,
{
    if n < 10 {
        seq![digit_char(n)]
    } else {
        decimal_digits(n / 10).push(digit_char(n % 10))
    }
}

pub open spec fn decimal_text(i: int) -> Seq<char> {
    if i < 0 {
        "-"@ + decimal_digits((-i) as nat)
    } else {
        decimal_digits(i as nat)
    }
}

pub open spec fn char_text(c: char) -> Seq<char> {
    if c == ' ' {
        "#\\space"@
    } else if c == '\n' {
        "#\\newline"@
    } else {
        seq!['#', '\\', c]
    }
}

/// How a value is shown: numbers in decimal, booleans as `#t` and `#f`, characters
/// as `#\` literals, strings in double quotes, symbols bare, pairs in dotted form.
pub open spec fn spec_render(v: ValueModel) -> Seq<char>
    decreases v,
{
    match v {
        ValueModel::Boolean(b) => if b { "#t"@ } else { "#f"@ },
        ValueModel::Character(c) => char_text(c),
        ValueModel::Number(NumModel::Integer(i)) => decimal_text(i),
        ValueModel::Number(NumModel::Floating(_)) => Seq::empty(),
        ValueModel::Text(s) => "\""@ + s + "\""@,
        ValueModel::Symbol(s) => s,
        ValueModel::Pair(a, b) => "("@ + spec_render(*a) + " . "@ + spec_render(*b) + ")"@,
        ValueModel::Procedure(_) => "#<procedure>"@,
    }
}

fn digits_of(n: u64) -> (r: Vec<char>)
    ensures
        r@ == decimal_digits(n as nat),
    decreases n,
{
    let c = digit(n % 10);
    if n < 10 {
        let mut v: Vec<char> = Vec::new();
        v.push(c);
        v
    } else {
        let mut v = digits_of(n / 10);
        v.push(c);
        v
    }
}

fn chars_to_string(v: Vec<char>) -> (r: String)
    ensures
        r@ == v@,
{
    string_of(v.as_slice())
}

/// The text of a value. Floats are shown by `ops`.
pub fn render<F: FloatOps>(v: &BasicType, ops: &F) -> (r: String)
    ensures
        float_free(v@) ==> r@ == spec_render(v@),
    decreases v,
{
    match v {
        BasicType::Boolean(b) => if *b { String::from_str("#t") } else { String::from_str("#f") },
        BasicType::Character(c) => {
            if *c == ' ' {
                String::from_str("#\\space")
            } else if *c == '\n' {
                String::from_str("#\\newline")
            } else {
                let mut cs: Vec<char> = Vec::new();
                cs.push('#');
                cs.push('\\');
                cs.push(*c);
                assert(cs@ =~= seq!['#', '\\', *c]);
                chars_to_string(cs)
            }
        },
        BasicType::Number(NumericType::Integer(i)) => {
            if *i < 0 {
                let mag: u64 = (-(*i as i128)) as u64;
                let digits = chars_to_string(digits_of(mag));
                String::from_str("-").concat(digits.as_str())
            } else {
                chars_to_string(digits_of(*i as u64))
            }
        },
        BasicType::Number(NumericType::Floating(bits)) => ops.render(*bits),
        BasicType::Text(s) => String::from_str("\"").concat(s.as_str()).concat("\""),
        BasicType::Symbol(s) => s.clone(),
        BasicType::Pair(a, b) => {
            let left = render(a, ops);
            let right = render(b, ops);
            String::from_str("(").concat(left.as_str()).concat(" . ").concat(right.as_str()).concat(")")
        },
        BasicType::Procedure(_) => String::from_str("#<procedure>"),
    }
}

/// What `interp` shows for `s` in `before`, and the environment `after` it.
pub open spec fn interp_outcome(s: Seq<char>, before: Environment, text: Seq<char>, after: Environment) -> bool {
    exists|toks: Seq<Token>, log: FloatLog|
        #![trigger interp_m(toks, env_model(before), log)]
        {
            &&& tokenizes(s, toks)
            &&& match interp_m(toks, env_model(before), log).0 {
                Ok(v) => float_free(v) ==> text == spec_render(v),
                Err(e) => text == spec_message(e),
            }
            &&& interp_m(toks, env_model(before), log).0 is Ok ==> env_model(after) == interp_m(
                toks,
                env_model(before),
                log,
            ).1
            &&& interp_m(toks, env_model(before), log).0 is Err ==> after == before
        }
}

/// Reads and evaluates a source text, and gives the text of the value, or the message of
/// the failure. The environment changes only when the evaluation succeeds.
pub fn interp<F: FloatOps>(source: &str, env: &mut Environment, ops: &F) -> (r: String)
    ensures
        interp_outcome(source@, *old(env), r@, *final(env)),
{
    let ghost before = *env;
    let res = interpret(source, env, ops);
    let ghost (toks, log) = choose|toks: Seq<Token>, log: FloatLog|
        {
            &&& tokenizes(source@, toks)
            &&& result_model(res) == interp_m(toks, env_model(before), log).0
            &&& res is Ok ==> env_model(*env) == interp_m(toks, env_model(before), log).1
            &&& res is Err ==> *env == before
        };
    let r = match res {
        Ok(v) => render(&v, ops),
        Err(e) => e.message(),
    };
    assert(interp_m(toks, env_model(before), log).0 is Ok <==> res is Ok);
    r
}

} // verus!
