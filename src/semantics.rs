use vstd::prelude::*;
use crate::operator::{OperatorType, spec_keyword};
use crate::error::InterpError;
use crate::env::{Environment, first_index, frame_find, spec_lookup, spec_define};
use crate::value::{BasicType, DataType, ValueModel, TermModel, term_model, terms_model, value_model, values_model};
use crate::eval::{
    spec_arith,
    is_arithmetic,
    single_value,
    operand_value,
    operand_values,
    define_operand,
    define_operands,
    spec_def,
    define_outcome,
    is_define_form,
    spec_eval,
    eval_changes,
};

verus! {

/// A scope as the evaluator sees it: names bound to term models.
pub type FrameModel = Seq<(Seq<char>, TermModel)>;

/// A chain of scopes, innermost first.
pub type EnvModel = Seq<FrameModel>;

pub open spec fn frame_model(vars: Seq<(String, DataType)>) -> FrameModel {
    vars.map_values(|b: (String, DataType)| (b.0@, term_model(b.1)))
}

pub open spec fn env_model(env: Environment) -> EnvModel
    decreases env,
{
    seq![frame_model(env.variables@)] + match env.parent {
        Some(p) => env_model(*p),
        None => Seq::empty(),
    }
}

pub open spec fn first_index_m(frame: FrameModel, name: Seq<char>) -> Option<int>
    decreases frame.len(),
{
    if frame.len() == 0 {
        None
    } else if frame[0].0 == name {
        Some(0)
    } else {
        match first_index_m(frame.drop_first(), name) {
            Some(k) => Some(k + 1),
            None => None,
        }
    }
}

pub open spec fn lookup_m(env: EnvModel, name: Seq<char>) -> Option<TermModel>
    decreases env.len(),
{
    if env.len() == 0 {
        None
    } else {
        match first_index_m(env[0], name) {
            Some(i) => Some(env[0][i].1),
            None => lookup_m(env.drop_first(), name),
        }
    }
}

/// Binds `name` in the innermost scope.
pub open spec fn define_m(env: EnvModel, name: Seq<char>, t: TermModel) -> EnvModel {
    let frame = env[0];
    env.update(
        0,
        match first_index_m(frame, name) {
            Some(i) => frame.update(i, (name, t)),
            None => frame.push((name, t)),
        },
    )
}

pub open spec fn single_m(t: TermModel, env: EnvModel) -> Result<ValueModel, InterpError> {
    match t {
        TermModel::Operator(op) => Ok(ValueModel::Symbol(spec_keyword(op))),
        TermModel::Literal(v) => Ok(v),
        TermModel::Variable(x) => match lookup_m(env, x@) {
            None => Err(InterpError::UnboundVariable(x)),
            Some(TermModel::Literal(v)) => Ok(v),
            Some(_) => Err(InterpError::UnresolvableBinding),
        },
    }
}

pub open spec fn operand_m(t: TermModel, env: EnvModel) -> Result<ValueModel, InterpError> {
    match t {
        TermModel::Operator(_) => Err(InterpError::MalformedApplication),
        TermModel::Literal(v) => Ok(v),
        TermModel::Variable(x) => match lookup_m(env, x@) {
            None => Err(InterpError::UnboundVariable(x)),
            Some(b) => single_m(b, env),
        },
    }
}

pub open spec fn operands_m(ts: Seq<TermModel>, env: EnvModel) -> Result<Seq<ValueModel>, InterpError>
    decreases ts.len(),
{
    if ts.len() == 0 {
        Ok(Seq::empty())
    } else {
        match operands_m(ts.drop_last(), env) {
            Err(e) => Err(e),
            Ok(vs) => match operand_m(ts.last(), env) {
                Ok(v) => Ok(vs.push(v)),
                Err(e) => Err(e),
            },
        }
    }
}

pub open spec fn define_operand_m(t: TermModel) -> Result<ValueModel, InterpError> {
    match t {
        TermModel::Operator(_) => Err(InterpError::MalformedApplication),
        TermModel::Literal(v) => Ok(v),
        TermModel::Variable(x) => Ok(ValueModel::Symbol(x@)),
    }
}

pub open spec fn define_operands_m(ts: Seq<TermModel>) -> Result<Seq<ValueModel>, InterpError>
    decreases ts.len(),
{
    if ts.len() == 0 {
        Ok(Seq::empty())
    } else {
        match define_operands_m(ts.drop_last()) {
            Err(e) => Err(e),
            Ok(vs) => match define_operand_m(ts.last()) {
                Ok(v) => Ok(vs.push(v)),
                Err(e) => Err(e),
            },
        }
    }
}

/// The binding that a `define` makes from its resolved operands.
pub open spec fn def_m(vs: Seq<ValueModel>) -> Result<(Seq<char>, ValueModel), InterpError> {
    if vs.len() < 2 {
        Err(InterpError::WrongArity)
    } else {
        match vs[0] {
            ValueModel::Symbol(name) => Ok((name, vs[1])),
            _ => Err(InterpError::NonSymbolAssignment),
        }
    }
}

/// The value of a term list, and the environment after it; `f` is the float that a
/// floating-point computation comes to.
pub open spec fn eval_m(terms: Seq<TermModel>, env: EnvModel, f: u64) -> (Result<ValueModel, InterpError>, EnvModel) {
    if terms.len() == 0 {
        (Err(InterpError::EmptyExpression), env)
    } else if terms.len() == 1 {
        (single_m(terms[0], env), env)
    } else {
        match terms[0] {
            TermModel::Operator(OperatorType::Lambda) => match terms[1] {
                TermModel::Literal(v) => if v is Procedure {
                    (Ok(v), env)
                } else {
                    (Err(InterpError::MalformedLambda), env)
                },
                _ => (Err(InterpError::MalformedLambda), env),
            },
            TermModel::Operator(OperatorType::Define) => match define_operands_m(terms.drop_first()) {
                Err(e) => (Err(e), env),
                Ok(vs) => match def_m(vs) {
                    Ok((name, v)) => (
                        Ok(ValueModel::Symbol(name)),
                        define_m(env, name, TermModel::Literal(v)),
                    ),
                    Err(e) => (Err(e), env),
                },
            },
            TermModel::Operator(op) => match operands_m(terms.drop_first(), env) {
                Err(e) => (Err(e), env),
                Ok(vs) => if is_arithmetic(op) {
                    (spec_arith(op, vs, f), env)
                } else {
                    (Err(InterpError::NotYetImplemented(op)), env)
                },
            },
            _ => (Err(InterpError::MalformedApplication), env),
        }
    }
}

/// A name with no binding anywhere in the scope chain, evaluated on its own, fails as an
/// unbound variable.
pub proof fn lemma_unbound_variable(x: String, env: EnvModel)
    requires
        lookup_m(env, x@) is None,
    ensures
        eval_m(seq![TermModel::Variable(x)], env, 0) == (
            Err::<ValueModel, InterpError>(InterpError::UnboundVariable(x)),
            env,
        ),
{
}

/// An operator is no value: as an operand of any operator but `lambda`, where no operand
/// before it fails, it makes the application malformed.
pub proof fn lemma_operator_operand(op: OperatorType, ts: Seq<TermModel>, k: int, env: EnvModel)
    requires
        op != OperatorType::Lambda,
        0 <= k < ts.len(),
        ts[k] is Operator,
        forall|j: int| 0 <= j < k ==> #[trigger] ts[j] is Literal,
    ensures
        eval_m(seq![TermModel::Operator(op)] + ts, env, 0).0 == Err::<ValueModel, InterpError>(
            InterpError::MalformedApplication,
        ),
{
    let terms = seq![TermModel::Operator(op)] + ts;
    assert(terms.drop_first() =~= ts);
    lemma_operands_stop(ts, k, env);
    lemma_define_operands_stop(ts, k);
}

proof fn lemma_operands_stop(ts: Seq<TermModel>, k: int, env: EnvModel)
    requires
        0 <= k < ts.len(),
        ts[k] is Operator,
        forall|j: int| 0 <= j < k ==> #[trigger] ts[j] is Literal,
    ensures
        operands_m(ts, env) == Err::<Seq<ValueModel>, InterpError>(InterpError::MalformedApplication),
    decreases ts.len(),
{
    if k < ts.len() - 1 {
        lemma_operands_stop(ts.drop_last(), k, env);
    } else {
        lemma_operands_literals(ts.drop_last(), env);
    }
}

proof fn lemma_operands_literals(ts: Seq<TermModel>, env: EnvModel)
    requires
        forall|j: int| 0 <= j < ts.len() ==> #[trigger] ts[j] is Literal,
    ensures
        operands_m(ts, env) is Ok,
    decreases ts.len(),
{
    if ts.len() > 0 {
        lemma_operands_literals(ts.drop_last(), env);
    }
}

proof fn lemma_define_operands_stop(ts: Seq<TermModel>, k: int)
    requires
        0 <= k < ts.len(),
        ts[k] is Operator,
        forall|j: int| 0 <= j < k ==> #[trigger] ts[j] is Literal,
    ensures
        define_operands_m(ts) == Err::<Seq<ValueModel>, InterpError>(InterpError::MalformedApplication),
    decreases ts.len(),
{
    if k < ts.len() - 1 {
        lemma_define_operands_stop(ts.drop_last(), k);
    } else {
        lemma_define_operands_literals(ts.drop_last());
    }
}

proof fn lemma_define_operands_literals(ts: Seq<TermModel>)
    requires
        forall|j: int| 0 <= j < ts.len() ==> #[trigger] ts[j] is Literal,
    ensures
        define_operands_m(ts) is Ok,
    decreases ts.len(),
{
    if ts.len() > 0 {
        lemma_define_operands_literals(ts.drop_last());
    }
}

proof fn lemma_first_index_model(vars: Seq<(String, DataType)>, name: Seq<char>)
    ensures
        first_index_m(frame_model(vars), name) == first_index(vars, name),
    decreases vars.len(),
{
    if vars.len() > 0 {
        assert(frame_model(vars).drop_first() =~= frame_model(vars.drop_first()));
        lemma_first_index_model(vars.drop_first(), name);
    }
}

pub open spec fn opt_term_model(t: Option<DataType>) -> Option<TermModel> {
    match t {
        Some(x) => Some(term_model(x)),
        None => None,
    }
}

proof fn lemma_lookup_model(env: Environment, name: Seq<char>)
    ensures
        lookup_m(env_model(env), name) == opt_term_model(spec_lookup(env, name)),
    decreases env,
{
    let em = env_model(env);
    lemma_first_index_model(env.variables@, name);
    lemma_first_index_bounds_m(frame_model(env.variables@), name);
    assert(em[0] == frame_model(env.variables@));
    if let Some(i) = first_index(env.variables@, name) {
        assert(em[0][i].1 == term_model(env.variables@[i].1));
        assert(frame_find(env.variables@, name) == Some(env.variables@[i].1));
    } else {
        assert(frame_find(env.variables@, name) is None);
    }
    match env.parent {
        Some(p) => {
            assert(em.drop_first() =~= env_model(*p));
            lemma_lookup_model(*p, name);
            if first_index(env.variables@, name) is None {
                assert(lookup_m(em, name) == lookup_m(em.drop_first(), name));
                assert(spec_lookup(env, name) == spec_lookup(*p, name));
            }
        },
        None => {
            assert(em.drop_first() =~= Seq::<FrameModel>::empty());
        },
    }
}

proof fn lemma_first_index_bounds_m(frame: FrameModel, name: Seq<char>)
    ensures
        first_index_m(frame, name) matches Some(i) ==> 0 <= i < frame.len(),
    decreases frame.len(),
{
    if frame.len() > 0 {
        lemma_first_index_bounds_m(frame.drop_first(), name);
    }
}

proof fn lemma_single_model(t: DataType, env: Environment)
    ensures
        single_m(term_model(t), env_model(env)) == single_value(t, env),
{
    if let DataType::Variable(x) = t {
        lemma_lookup_model(env, x@);
    }
}

proof fn lemma_operands_model(ts: Seq<DataType>, env: Environment)
    ensures
        operands_m(terms_model(ts), env_model(env)) == match operand_values(ts, env) {
            Ok(vs) => Ok::<Seq<ValueModel>, InterpError>(vs),
            Err(e) => Err(e),
        },
    decreases ts.len(),
{
    if ts.len() > 0 {
        assert(terms_model(ts).drop_last() =~= terms_model(ts.drop_last()));
        lemma_operands_model(ts.drop_last(), env);
        let t = ts.last();
        if let DataType::Variable(x) = t {
            lemma_lookup_model(env, x@);
            if let Some(b) = spec_lookup(env, x@) {
                lemma_single_model(b, env);
            }
        }
    }
}

pub open spec fn values_result_model(r: Result<Seq<BasicType>, InterpError>) -> Result<Seq<ValueModel>, InterpError> {
    match r {
        Ok(vs) => Ok(values_model(vs)),
        Err(e) => Err(e),
    }
}

proof fn lemma_define_operands_model(ts: Seq<DataType>)
    ensures
        define_operands_m(terms_model(ts)) == values_result_model(define_operands(ts)),
    decreases ts.len(),
{
    if ts.len() > 0 {
        assert(terms_model(ts).drop_last() =~= terms_model(ts.drop_last()));
        lemma_define_operands_model(ts.drop_last());
        assert(terms_model(ts).last() == term_model(ts.last()));
        assert(define_operand_m(term_model(ts.last())) == match define_operand(ts.last()) {
            Ok(v) => Ok::<ValueModel, InterpError>(value_model(v)),
            Err(e) => Err(e),
        });
        if let Ok(vs) = define_operands(ts.drop_last()) {
            if let Ok(v) = define_operand(ts.last()) {
                assert(values_model(vs.push(v)) =~= values_model(vs).push(value_model(v)));
            }
        }
    } else {
        assert(values_model(Seq::<BasicType>::empty()) =~= Seq::<ValueModel>::empty());
    }
}

proof fn lemma_define_model(before: Environment, after: Environment, name: String, t: DataType)
    requires
        after.variables@ == spec_define(before.variables@, name, t),
        after.parent == before.parent,
    ensures
        env_model(after) == define_m(env_model(before), name@, term_model(t)),
{
    let vars = before.variables@;
    lemma_first_index_model(vars, name@);
    let fm = frame_model(vars);
    lemma_first_index_bounds_m(fm, name@);
    match first_index(vars, name@) {
        Some(i) => {
            assert(frame_model(spec_define(vars, name, t)) =~= fm.update(i, (name@, term_model(t))));
        },
        None => {
            assert(frame_model(spec_define(vars, name, t)) =~= fm.push((name@, term_model(t))));
        },
    }
    assert(env_model(after) =~= define_m(env_model(before), name@, term_model(t)));
}

/// The model-level evaluator agrees with `eval`'s own contract.
pub proof fn lemma_eval_model(terms: Seq<DataType>, before: Environment, after: Environment, f: u64)
    requires
        eval_changes(terms, before, after),
    ensures
        eval_m(terms_model(terms), env_model(before), f) == (
            match spec_eval(terms, before, f) {
                Ok(v) => Ok::<ValueModel, InterpError>(v),
                Err(e) => Err(e),
            },
            env_model(after),
        ),
{
    let tm = terms_model(terms);
    if terms.len() == 1 {
        lemma_single_model(terms[0], before);
    } else if terms.len() >= 2 {
        assert(tm.drop_first() =~= terms_model(terms.drop_first()));
        lemma_operands_model(terms.drop_first(), before);
        lemma_define_operands_model(terms.drop_first());
        if is_define_form(terms) {
            if let Ok(vs) = define_operands(terms.drop_first()) {
                if let Ok((name, v)) = spec_def(vs) {
                    lemma_define_model(before, after, name, DataType::Literal(v));
                }
            }
        }
    }
}

} // verus!
