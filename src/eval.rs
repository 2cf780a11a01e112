use vstd::prelude::*;
use crate::operator::{OperatorType, keyword, spec_keyword};
use crate::env::{Environment, lookup, spec_lookup, spec_define};
use crate::error::InterpError;
use crate::value::{
    BasicType,
    DataType,
    NumericType,
    FloatOps,
    ValueModel,
    NumModel,
    value_model,
    values_model,
    copy_value,
};

verus! {

pub open spec fn in_i64(x: int) -> bool {
    i64::MIN <= x <= i64::MAX
}

/// Integer division that rounds toward zero.
pub open spec fn trunc_div(a: int, b: int) -> int {
    let q = (if a < 0 { -a } else { a }) / (if b < 0 { -b } else { b });
    if (a < 0) != (b < 0) { -q } else { q }
}

/// One step of an exact integer fold: the running value combined with the next operand.
pub open spec fn exact_step(op: OperatorType, acc: int, x: int) -> int {
    match op {
        OperatorType::Add => acc + x,
        OperatorType::Sub => acc - x,
        OperatorType::Mul => acc * x,
        _ => trunc_div(acc, x),
    }
}

/// Folds the operands into `init` from left to right, over the unbounded integers.
pub open spec fn exact_fold(op: OperatorType, init: int, xs: Seq<int>) -> int
    decreases xs.len(),
{
    if xs.len() == 0 {
        init
    } else {
        exact_step(op, exact_fold(op, init, xs.drop_last()), xs.last())
    }
}

pub open spec fn is_arithmetic(op: OperatorType) -> bool {
    op == OperatorType::Add || op == OperatorType::Sub || op == OperatorType::Mul || op
        == OperatorType::Div
}

/// The value an operator yields on no operands, and the one it starts from on one.
pub open spec fn identity(op: OperatorType) -> int {
    if op == OperatorType::Add || op == OperatorType::Sub { 0 } else { 1 }
}

pub open spec fn two_sided(op: OperatorType) -> bool {
    op == OperatorType::Sub || op == OperatorType::Div
}

/// Where the fold starts: `-` and `/` with two or more operands start from the first.
pub open spec fn fold_init(op: OperatorType, xs: Seq<int>) -> int {
    if two_sided(op) && xs.len() >= 2 { xs[0] } else { identity(op) }
}

/// The operands folded in: all of them, or all but the first where the fold starts there.
pub open spec fn fold_operands(op: OperatorType, xs: Seq<int>) -> Seq<int> {
    if two_sided(op) && xs.len() >= 2 { xs.drop_first() } else { xs }
}

/// The exact value of an integer operation: `+` and `*` fold from their identity; `-` and
/// `/` fold from their first operand over the rest, and with one operand give its negation
/// or reciprocal. Division rounds toward zero at each step.
pub open spec fn exact_value(op: OperatorType, xs: Seq<int>) -> int {
    exact_fold(op, fold_init(op, xs), fold_operands(op, xs))
}

/// Integer arithmetic: a division by a zero operand fails; otherwise the exact value is
/// the result when it fits in 64 signed bits, and an overflow when it does not.
pub open spec fn int_arith(op: OperatorType, xs: Seq<int>) -> Result<int, InterpError> {
    if op == OperatorType::Div && fold_operands(op, xs).contains(0) {
        Err(InterpError::DivisionByZero)
    } else if in_i64(exact_value(op, xs)) {
        Ok(exact_value(op, xs))
    } else {
        Err(InterpError::Overflow)
    }
}

pub open spec fn is_number(v: ValueModel) -> bool {
    v is Number
}

pub open spec fn is_float(v: ValueModel) -> bool {
    v matches ValueModel::Number(NumModel::Floating(_))
}

pub open spec fn int_of(v: ValueModel) -> int {
    match v {
        ValueModel::Number(NumModel::Integer(i)) => i,
        _ => 0,
    }
}

pub open spec fn ints_of(vs: Seq<ValueModel>) -> Seq<int> {
    vs.map_values(|v: ValueModel| int_of(v))
}

/// Arithmetic on evaluated operands. Every operand must be a number. One float among them
/// carries the whole operation out in floating point, with `f` the float it comes to;
/// integers alone stay integers.
pub open spec fn spec_arith(op: OperatorType, vs: Seq<ValueModel>, f: u64) -> Result<ValueModel, InterpError> {
    if !(forall|k: int| 0 <= k < vs.len() ==> is_number(#[trigger] vs[k])) {
        Err(InterpError::TypeError)
    } else if (op == OperatorType::Sub || op == OperatorType::Div) && vs.len() == 0 {
        Err(InterpError::WrongArity)
    } else if exists|k: int| 0 <= k < vs.len() && is_float(#[trigger] vs[k]) {
        Ok(ValueModel::Number(NumModel::Floating(f)))
    } else {
        match int_arith(op, ints_of(vs)) {
            Ok(v) => Ok(ValueModel::Number(NumModel::Integer(v))),
            Err(e) => Err(e),
        }
    }
}

/// Integer operands keep `+` and `*` in the integers, and one float among the operands
/// makes the result a float.
pub proof fn lemma_numeric_promotion(op: OperatorType, vs: Seq<ValueModel>)
    requires
        op == OperatorType::Add || op == OperatorType::Mul,
        forall|k: int| 0 <= k < vs.len() ==> is_number(#[trigger] vs[k]),
    ensures
        (forall|k: int| 0 <= k < vs.len() ==> !is_float(#[trigger] vs[k])) ==> (spec_arith(op, vs, 0)
            matches Ok(ValueModel::Number(NumModel::Integer(_))) || spec_arith(op, vs, 0) == Err::<
            ValueModel,
            InterpError,
        >(InterpError::Overflow)),
        (exists|k: int| 0 <= k < vs.len() && is_float(#[trigger] vs[k])) ==> forall|f: u64|
            #[trigger] spec_arith(op, vs, f) == Ok::<ValueModel, InterpError>(
                ValueModel::Number(NumModel::Floating(f)),
            ),
{
}

/// The bits of a float result; the float that a floating-point computation came to.
pub open spec fn result_bits(r: Result<BasicType, InterpError>) -> u64 {
    match r {
        Ok(BasicType::Number(NumericType::Floating(b))) => b,
        _ => 0,
    }
}

/// The model of an evaluation result.
pub open spec fn result_model(r: Result<BasicType, InterpError>) -> Result<ValueModel, InterpError> {
    match r {
        Ok(v) => Ok(value_model(v)),
        Err(e) => Err(e),
    }
}

/// The integer held by an operand that is known to be an integer.
fn int_at(terms: &Vec<BasicType>, k: usize) -> (r: i64)
    requires
        k < terms@.len(),
        is_number(value_model(terms@[k as int])),
        !is_float(value_model(terms@[k as int])),
    ensures
        r as int == int_of(value_model(terms@[k as int])),
{
    match &terms[k] {
        BasicType::Number(NumericType::Integer(v)) => *v,
        _ => 0,
    }
}

fn float_at<F: FloatOps>(terms: &Vec<BasicType>, k: usize, ops: &F) -> u64
    requires
        k < terms@.len(),
{
    match &terms[k] {
        BasicType::Number(NumericType::Floating(b)) => *b,
        BasicType::Number(NumericType::Integer(v)) => ops.from_integer(*v),
        _ => 0,
    }
}

fn float_step<F: FloatOps>(op: OperatorType, acc: u64, x: u64, ops: &F) -> u64 {
    match op {
        OperatorType::Add => ops.add(acc, x),
        OperatorType::Sub => ops.sub(acc, x),
        OperatorType::Mul => ops.mul(acc, x),
        _ => ops.div(acc, x),
    }
}

/// Arithmetic on evaluated operands, with the promotion to floating point.
fn arith<F: FloatOps>(op: OperatorType, terms: &Vec<BasicType>, ops: &F) -> (r: Result<
    BasicType,
    InterpError,
>)
    requires
        is_arithmetic(op),
    ensures
        result_model(r) == spec_arith(op, values_model(terms@), result_bits(r)),
{
    let ghost vm = values_model(terms@);
    let n = terms.len();
    let mut float_flag = false;
    let mut i: usize = 0;
    while i < n
        invariant
            n == terms@.len(),
            vm == values_model(terms@),
            i <= n,
            forall|k: int| 0 <= k < i ==> is_number(#[trigger] vm[k]),
            float_flag == (exists|k: int| 0 <= k < i && is_float(#[trigger] vm[k])),
        decreases n - i,
    {
        match &terms[i] {
            BasicType::Number(NumericType::Floating(_)) => {
                float_flag = true;
                assert(is_float(vm[i as int]));
            },
            BasicType::Number(NumericType::Integer(_)) => {},
            _ => {
                assert(!is_number(vm[i as int]));
                return Err(InterpError::TypeError);
            },
        }
        i = i + 1;
    }
    let two_sided = matches!(op, OperatorType::Sub | OperatorType::Div);
    if two_sided && n == 0 {
        return Err(InterpError::WrongArity);
    }
    let start: usize = if two_sided && n >= 2 { 1 } else { 0 };
    if float_flag {
        let mut acc: u64 = if start == 1 {
            float_at(terms, 0, ops)
        } else if matches!(op, OperatorType::Add | OperatorType::Sub) {
            ops.from_integer(0)
        } else {
            ops.from_integer(1)
        };
        let mut j: usize = start;
        while j < n
            invariant
                n == terms@.len(),
                j <= n,
            decreases n - j,
        {
            acc = float_step(op, acc, float_at(terms, j, ops), ops);
            j = j + 1;
        }
        return Ok(BasicType::Number(NumericType::Floating(acc)));
    }
    let ghost xs = ints_of(vm);
    let mut xv: Vec<i64> = Vec::new();
    let mut k: usize = 0;
    while k < n
        invariant
            n == terms@.len(),
            vm == values_model(terms@),
            xs == ints_of(vm),
            k <= n,
            forall|q: int| 0 <= q < n ==> is_number(#[trigger] vm[q]),
            !(exists|q: int| 0 <= q < n && is_float(#[trigger] vm[q])),
            xv@.len() == k,
            forall|q: int| 0 <= q < k ==> xv@[q] as int == #[trigger] xs[q],
        decreases n - k,
    {
        assert(is_number(vm[k as int]));
        assert(!is_float(vm[k as int]));
        xv.push(int_at(terms, k));
        k = k + 1;
    }
    assert(ints_view(xv@) =~= xs);
    match int_arith_exec(op, &xv) {
        Ok(v) => Ok(BasicType::Number(NumericType::Integer(v))),
        Err(e) => Err(e),
    }
}

pub open spec fn ints_view(v: Seq<i64>) -> Seq<int> {
    v.map_values(|x: i64| x as int)
}

pub open spec fn magnitude(x: int) -> int {
    if x < 0 { -x } else { x }
}

proof fn lemma_mul_magnitude(a: int, b: int)
    requires
        b != 0,
    ensures
        magnitude(a * b) >= magnitude(a),
{
    if a >= 0 && b > 0 {
        assert(a * b >= a) by (nonlinear_arith) requires a >= 0, b >= 1;
    } else if a >= 0 && b < 0 {
        assert(-(a * b) >= a) by (nonlinear_arith) requires a >= 0, b <= -1;
    } else if a < 0 && b > 0 {
        assert(-(a * b) >= -a) by (nonlinear_arith) requires a < 0, b >= 1;
    } else {
        assert(a * b >= -a) by (nonlinear_arith) requires a < 0, b <= -1;
    }
}

/// With no zero operand, a product's magnitude only grows as operands are added.
proof fn lemma_product_grows(ys: Seq<int>, k: int)
    requires
        0 <= k <= ys.len(),
        forall|q: int| 0 <= q < ys.len() ==> #[trigger] ys[q] != 0,
    ensures
        magnitude(exact_fold(OperatorType::Mul, 1, ys.subrange(0, k))) <= magnitude(
            exact_fold(OperatorType::Mul, 1, ys),
        ),
    decreases ys.len(),
{
    if k == ys.len() {
        assert(ys.subrange(0, k) == ys);
    } else {
        let d = ys.drop_last();
        assert(d.subrange(0, k) == ys.subrange(0, k));
        lemma_product_grows(d, k);
        lemma_mul_magnitude(exact_fold(OperatorType::Mul, 1, d), ys.last());
    }
}

/// A zero operand makes the whole product zero.
proof fn lemma_product_zero(ys: Seq<int>, k: int)
    requires
        0 <= k < ys.len(),
        ys[k] == 0,
    ensures
        exact_fold(OperatorType::Mul, 1, ys) == 0,
    decreases ys.len(),
{
    if k < ys.len() - 1 {
        lemma_product_zero(ys.drop_last(), k);
    }
}

/// The exact sum or difference, held in 128 bits, which no run of 64-bit operands leaves.
fn fold_sum(op: OperatorType, xs: &Vec<i64>, init: i64, start: usize) -> (r: i128)
    requires
        op == OperatorType::Add || op == OperatorType::Sub,
        start <= 1,
        start <= xs@.len(),
        start == 0 ==> init == 0,
    ensures
        r == exact_fold(op, init as int, ints_view(xs@).subrange(start as int, xs@.len() as int)),
{
    let ghost ys = ints_view(xs@);
    let n = xs.len();
    assert(n <= 0xffff_ffff_ffff_ffff);
    let mut acc: i128 = init as i128;
    let mut j: usize = start;
    assert(ys.subrange(start as int, start as int) =~= Seq::<int>::empty());
    while j < n
        invariant
            n == xs@.len(),
            n <= 0xffff_ffff_ffff_ffff,
            ys == ints_view(xs@),
            op == OperatorType::Add || op == OperatorType::Sub,
            start <= 1,
            start == 0 ==> init == 0,
            start <= j <= n,
            acc == exact_fold(op, init as int, ys.subrange(start as int, j as int)),
            magnitude(acc as int) <= (j - start) * 0x8000_0000_0000_0000 + magnitude(init as int),
        decreases n - j,
    {
        let x = xs[j];
        assert(ys.subrange(start as int, j + 1).drop_last() == ys.subrange(start as int, j as int));
        assert(ys[j as int] == x as int);
        if matches!(op, OperatorType::Add) {
            acc = acc + x as i128;
        } else {
            acc = acc - x as i128;
        }
        j = j + 1;
    }
    acc
}

/// The exact product, or `None` where its magnitude passes 2^63.
fn fold_product(xs: &Vec<i64>) -> (r: Option<i128>)
    ensures
        match r {
            Some(v) => v == exact_fold(OperatorType::Mul, 1, ints_view(xs@)),
            None => !in_i64(exact_fold(OperatorType::Mul, 1, ints_view(xs@))),
        },
{
    let ghost ys = ints_view(xs@);
    let n = xs.len();
    let mut k: usize = 0;
    while k < n
        invariant
            n == xs@.len(),
            ys == ints_view(xs@),
            k <= n,
            forall|q: int| 0 <= q < k ==> #[trigger] ys[q] != 0,
        decreases n - k,
    {
        if xs[k] == 0 {
            proof {
                lemma_product_zero(ys, k as int);
            }
            return Some(0);
        }
        k = k + 1;
    }
    let mut acc: i128 = 1;
    let mut j: usize = 0;
    assert(ys.subrange(0, 0) =~= Seq::<int>::empty());
    while j < n
        invariant
            n == xs@.len(),
            ys == ints_view(xs@),
            j <= n,
            forall|q: int| 0 <= q < n ==> #[trigger] ys[q] != 0,
            acc == exact_fold(OperatorType::Mul, 1, ys.subrange(0, j as int)),
            -0x8000_0000_0000_0000 <= acc <= 0x8000_0000_0000_0000,
        decreases n - j,
    {
        let x = xs[j] as i128;
        assert(ys.subrange(0, j + 1).drop_last() == ys.subrange(0, j as int));
        assert(ys[j as int] == x as int);
        assert(-0x4000_0000_0000_0000_0000_0000_0000_0000 <= acc * x <= 0x4000_0000_0000_0000_0000_0000_0000_0000)
            by (nonlinear_arith)
            requires
                -0x8000_0000_0000_0000 <= acc <= 0x8000_0000_0000_0000,
                -0x8000_0000_0000_0000 <= x <= 0x8000_0000_0000_0000,
        ;
        acc = acc * x;
        if acc > 0x8000_0000_0000_0000 || acc < -0x8000_0000_0000_0000 {
            proof {
                lemma_product_grows(ys, j + 1);
            }
            return None;
        }
        j = j + 1;
    }
    assert(ys.subrange(0, n as int) == ys);
    Some(acc)
}

/// The exact quotient, or `None` where a divisor is zero.
fn fold_quotient(xs: &Vec<i64>, init: i64, start: usize) -> (r: Option<i128>)
    requires
        start <= xs@.len(),
    ensures
        match r {
            Some(v) => !ints_view(xs@).subrange(start as int, xs@.len() as int).contains(0)
                && v == exact_fold(
                OperatorType::Div,
                init as int,
                ints_view(xs@).subrange(start as int, xs@.len() as int),
            ),
            None => ints_view(xs@).subrange(start as int, xs@.len() as int).contains(0),
        },
{
    let ghost ys = ints_view(xs@);
    let ghost ds = ys.subrange(start as int, xs@.len() as int);
    let n = xs.len();
    let mut acc: i128 = init as i128;
    let mut j: usize = start;
    assert(ys.subrange(start as int, start as int) =~= Seq::<int>::empty());
    while j < n
        invariant
            n == xs@.len(),
            ys == ints_view(xs@),
            ds == ys.subrange(start as int, n as int),
            start <= j <= n,
            forall|q: int| start <= q < j ==> #[trigger] ys[q] != 0,
            acc == exact_fold(OperatorType::Div, init as int, ys.subrange(start as int, j as int)),
            -0x8000_0000_0000_0000 <= acc <= 0x8000_0000_0000_0000,
        decreases n - j,
    {
        let x = xs[j];
        assert(ys.subrange(start as int, j + 1).drop_last() == ys.subrange(start as int, j as int));
        assert(ys[j as int] == x as int);
        if x == 0 {
            assert(ds[j - start] == 0);
            return None;
        }
        let ua: u128 = if acc < 0 { (-acc) as u128 } else { acc as u128 };
        let ub: u128 = if x < 0 { (-(x as i128)) as u128 } else { x as u128 };
        let q: u128 = ua / ub;
        assert(q <= ua) by (nonlinear_arith)
            requires
                ub >= 1,
                q == ua / ub,
        ;
        let v: i128 = if (acc < 0) != (x < 0) { -(q as i128) } else { q as i128 };
        assert(v == trunc_div(acc as int, x as int));
        acc = v;
        j = j + 1;
    }
    assert(ys.subrange(start as int, n as int) == ds);
    assert forall|q: int| 0 <= q < ds.len() implies ds[q] != 0 by {
        assert(ds[q] == ys[start + q]);
    }
    Some(acc)
}

/// Integer arithmetic on the operands' values.
fn int_arith_exec(op: OperatorType, xs: &Vec<i64>) -> (r: Result<i64, InterpError>)
    requires
        is_arithmetic(op),
        two_sided(op) ==> xs@.len() >= 1,
    ensures
        match int_arith(op, ints_view(xs@)) {
            Ok(v) => r == Ok::<i64, InterpError>(v as i64),
            Err(e) => r == Err::<i64, InterpError>(e),
        },
{
    let ghost ys = ints_view(xs@);
    let n = xs.len();
    let two = matches!(op, OperatorType::Sub | OperatorType::Div);
    let start: usize = if two && n >= 2 { 1 } else { 0 };
    let init: i64 = if start == 1 {
        xs[0]
    } else if matches!(op, OperatorType::Add | OperatorType::Sub) {
        0
    } else {
        1
    };
    assert(fold_operands(op, ys) =~= ys.subrange(start as int, n as int));
    assert(fold_init(op, ys) == init as int);
    let v: i128 = match op {
        OperatorType::Add | OperatorType::Sub => fold_sum(op, xs, init, start),
        OperatorType::Mul => {
            assert(ys.subrange(0, n as int) == ys);
            match fold_product(xs) {
                Some(v) => v,
                None => {
                    return Err(InterpError::Overflow);
                },
            }
        },
        _ => match fold_quotient(xs, init, start) {
            Some(v) => v,
            None => {
                return Err(InterpError::DivisionByZero);
            },
        },
    };
    if v < i64::MIN as i128 || v > i64::MAX as i128 {
        Err(InterpError::Overflow)
    } else {
        Ok(v as i64)
    }
}

/// The sum of the operands.
pub fn add<F: FloatOps>(terms: &Vec<BasicType>, ops: &F) -> (r: Result<BasicType, InterpError>)
    ensures
        result_model(r) == spec_arith(OperatorType::Add, values_model(terms@), result_bits(r)),
{
    arith(OperatorType::Add, terms, ops)
}

/// The product of the operands.
pub fn mul<F: FloatOps>(terms: &Vec<BasicType>, ops: &F) -> (r: Result<BasicType, InterpError>)
    ensures
        result_model(r) == spec_arith(OperatorType::Mul, values_model(terms@), result_bits(r)),
{
    arith(OperatorType::Mul, terms, ops)
}

/// The first operand less the others; the negation of a single operand.
pub fn sub<F: FloatOps>(terms: &Vec<BasicType>, ops: &F) -> (r: Result<BasicType, InterpError>)
    ensures
        result_model(r) == spec_arith(OperatorType::Sub, values_model(terms@), result_bits(r)),
{
    arith(OperatorType::Sub, terms, ops)
}

/// The first operand divided by the others in turn; the reciprocal of a single operand.
/// Integer division rounds toward zero.
pub fn div<F: FloatOps>(terms: &Vec<BasicType>, ops: &F) -> (r: Result<BasicType, InterpError>)
    ensures
        result_model(r) == spec_arith(OperatorType::Div, values_model(terms@), result_bits(r)),
{
    arith(OperatorType::Div, terms, ops)
}

/// The value of a term standing alone: an operator denotes its own keyword as a symbol,
/// a literal itself, and a variable the literal it is bound to.
pub open spec fn single_value(t: DataType, env: Environment) -> Result<ValueModel, InterpError> {
    match t {
        DataType::Operator(op) => Ok(ValueModel::Symbol(spec_keyword(op))),
        DataType::Literal(v) => Ok(value_model(v)),
        DataType::Variable(x) => match spec_lookup(env, x@) {
            None => Err(InterpError::UnboundVariable(x)),
            Some(DataType::Literal(v)) => Ok(value_model(v)),
            Some(_) => Err(InterpError::UnresolvableBinding),
        },
    }
}

/// An operand of an operator other than `define`: a variable is looked up and its binding
/// evaluated; an operator is no value.
pub open spec fn operand_value(t: DataType, env: Environment) -> Result<ValueModel, InterpError> {
    match t {
        DataType::Operator(_) => Err(InterpError::MalformedApplication),
        DataType::Literal(v) => Ok(value_model(v)),
        DataType::Variable(x) => match spec_lookup(env, x@) {
            None => Err(InterpError::UnboundVariable(x)),
            Some(b) => single_value(b, env),
        },
    }
}

/// The operands resolved from left to right; the first that fails decides.
pub open spec fn operand_values(ts: Seq<DataType>, env: Environment) -> Result<
    Seq<ValueModel>,
    InterpError,
>
    decreases ts.len(),
{
    if ts.len() == 0 {
        Ok(Seq::empty())
    } else {
        match operand_values(ts.drop_last(), env) {
            Err(e) => Err(e),
            Ok(vs) => match operand_value(ts.last(), env) {
                Ok(v) => Ok(vs.push(v)),
                Err(e) => Err(e),
            },
        }
    }
}

/// An operand of `define`: a variable names itself and is not looked up.
pub open spec fn define_operand(t: DataType) -> Result<BasicType, InterpError> {
    match t {
        DataType::Operator(_) => Err(InterpError::MalformedApplication),
        DataType::Literal(v) => Ok(v),
        DataType::Variable(x) => Ok(BasicType::Symbol(x)),
    }
}

pub open spec fn define_operands(ts: Seq<DataType>) -> Result<Seq<BasicType>, InterpError>
    decreases ts.len(),
{
    if ts.len() == 0 {
        Ok(Seq::empty())
    } else {
        match define_operands(ts.drop_last()) {
            Err(e) => Err(e),
            Ok(vs) => match define_operand(ts.last()) {
                Ok(v) => Ok(vs.push(v)),
                Err(e) => Err(e),
            },
        }
    }
}

/// What `define` does with its resolved operands: the first must be a symbol, and it is
/// bound to the second.
pub open spec fn spec_def(vs: Seq<BasicType>) -> Result<(String, BasicType), InterpError> {
    if vs.len() < 2 {
        Err(InterpError::WrongArity)
    } else {
        match vs[0] {
            BasicType::Symbol(name) => Ok((name, vs[1])),
            _ => Err(InterpError::NonSymbolAssignment),
        }
    }
}

/// The binding that evaluating `terms` makes, or why it fails, for a `define` form.
pub open spec fn define_outcome(terms: Seq<DataType>) -> Result<(String, BasicType), InterpError> {
    match define_operands(terms.drop_first()) {
        Err(e) => Err(e),
        Ok(vs) => spec_def(vs),
    }
}

pub open spec fn is_define_form(terms: Seq<DataType>) -> bool {
    terms.len() >= 2 && terms[0] == DataType::Operator(OperatorType::Define)
}

/// The value of a term list in `env`; `f` is the float that a floating-point computation
/// comes to.
pub open spec fn spec_eval(terms: Seq<DataType>, env: Environment, f: u64) -> Result<ValueModel, InterpError> {
    if terms.len() == 0 {
        Err(InterpError::EmptyExpression)
    } else if terms.len() == 1 {
        single_value(terms[0], env)
    } else {
        match terms[0] {
            DataType::Operator(OperatorType::Lambda) => match terms[1] {
                DataType::Literal(v) => if v is Procedure {
                    Ok(value_model(v))
                } else {
                    Err(InterpError::MalformedLambda)
                },
                _ => Err(InterpError::MalformedLambda),
            },
            DataType::Operator(OperatorType::Define) => match define_outcome(terms) {
                Ok((name, _)) => Ok(ValueModel::Symbol(name@)),
                Err(e) => Err(e),
            },
            DataType::Operator(op) => match operand_values(terms.drop_first(), env) {
                Err(e) => Err(e),
                Ok(vs) => if is_arithmetic(op) {
                    spec_arith(op, vs, f)
                } else {
                    Err(InterpError::NotYetImplemented(op))
                },
            },
            _ => Err(InterpError::MalformedApplication),
        }
    }
}

/// The environment after evaluating `terms`: only a `define` that succeeds changes it.
pub open spec fn eval_changes(terms: Seq<DataType>, before: Environment, after: Environment) -> bool {
    if is_define_form(terms) && define_outcome(terms) is Ok {
        let (name, v) = define_outcome(terms)->Ok_0;
        &&& after.variables@ == spec_define(before.variables@, name, DataType::Literal(v))
        &&& after.parent == before.parent
    } else {
        after == before
    }
}

proof fn lemma_operands_error_sticks(ts: Seq<DataType>, env: Environment, k: int)
    requires
        0 <= k <= ts.len(),
        operand_values(ts.subrange(0, k), env) is Err,
    ensures
        operand_values(ts, env) == operand_values(ts.subrange(0, k), env),
    decreases ts.len(),
{
    if k < ts.len() {
        assert(ts.drop_last().subrange(0, k) == ts.subrange(0, k));
        lemma_operands_error_sticks(ts.drop_last(), env, k);
    } else {
        assert(ts.subrange(0, k) == ts);
    }
}

proof fn lemma_define_operands_error_sticks(ts: Seq<DataType>, k: int)
    requires
        0 <= k <= ts.len(),
        define_operands(ts.subrange(0, k)) is Err,
    ensures
        define_operands(ts) == define_operands(ts.subrange(0, k)),
    decreases ts.len(),
{
    if k < ts.len() {
        assert(ts.drop_last().subrange(0, k) == ts.subrange(0, k));
        lemma_define_operands_error_sticks(ts.drop_last(), k);
    } else {
        assert(ts.subrange(0, k) == ts);
    }
}

fn eval_single(t: &DataType, env: &Environment) -> (r: Result<BasicType, InterpError>)
    ensures
        result_model(r) == single_value(*t, *env),
        *t matches DataType::Literal(v) ==> r == Ok::<BasicType, InterpError>(v),
        *t matches DataType::Variable(x) ==> (spec_lookup(*env, x@) matches Some(DataType::Literal(v))
            ==> r == Ok::<BasicType, InterpError>(v)),
{
    match t {
        DataType::Operator(op) => Ok(BasicType::Symbol(keyword(*op))),
        DataType::Literal(v) => Ok(copy_value(v)),
        DataType::Variable(x) => match lookup(x, env) {
            Err(e) => Err(e),
            Ok(DataType::Literal(v)) => Ok(v),
            Ok(_) => Err(InterpError::UnresolvableBinding),
        },
    }
}

fn resolve_operands(terms: &Vec<DataType>, env: &Environment) -> (r: Result<Vec<BasicType>, InterpError>)
    requires
        terms@.len() >= 1,
    ensures
        match operand_values(terms@.drop_first(), *env) {
            Ok(vs) => r is Ok && values_model(r->Ok_0@) == vs,
            Err(e) => r == Err::<Vec<BasicType>, InterpError>(e),
        },
{
    let n = terms.len();
    let mut out: Vec<BasicType> = Vec::new();
    let mut i: usize = 1;
    assert(values_model(out@) =~= Seq::<ValueModel>::empty());
    while i < n
        invariant
            n == terms@.len(),
            1 <= i <= n,
            operand_values(terms@.subrange(1, i as int), *env) == Ok::<Seq<ValueModel>, InterpError>(
                values_model(out@),
            ),
        decreases n - i,
    {
        let ghost pre = terms@.subrange(1, i + 1);
        let ghost prev = out@;
        assert(pre.drop_last() == terms@.subrange(1, i as int));
        let v = match &terms[i] {
            DataType::Operator(_) => Err(InterpError::MalformedApplication),
            DataType::Literal(v) => Ok(copy_value(v)),
            DataType::Variable(x) => match lookup(x, env) {
                Err(e) => Err(e),
                Ok(b) => eval_single(&b, env),
            },
        };
        assert(result_model(v) == operand_value(terms@[i as int], *env));
        match v {
            Ok(v) => {
                out.push(v);
                assert(values_model(out@) =~= values_model(prev).push(value_model(v)));
            },
            Err(e) => {
                proof {
                    lemma_operands_error_sticks(terms@.drop_first(), *env, i as int);
                    assert(terms@.drop_first().subrange(0, i as int) == pre);
                }
                return Err(e);
            },
        }
        i = i + 1;
    }
    assert(terms@.subrange(1, n as int) == terms@.drop_first());
    Ok(out)
}

fn collect_define_operands(terms: &Vec<DataType>) -> (r: Result<Vec<BasicType>, InterpError>)
    requires
        terms@.len() >= 1,
    ensures
        match define_operands(terms@.drop_first()) {
            Ok(vs) => r matches Ok(out) && out@ == vs,
            Err(e) => r == Err::<Vec<BasicType>, InterpError>(e),
        },
{
    let n = terms.len();
    let mut out: Vec<BasicType> = Vec::new();
    let mut i: usize = 1;
    assert(out@ =~= Seq::<BasicType>::empty());
    while i < n
        invariant
            n == terms@.len(),
            1 <= i <= n,
            define_operands(terms@.subrange(1, i as int)) == Ok::<Seq<BasicType>, InterpError>(out@),
        decreases n - i,
    {
        let ghost pre = terms@.subrange(1, i + 1);
        assert(pre.drop_last() == terms@.subrange(1, i as int));
        let v = match &terms[i] {
            DataType::Operator(_) => Err(InterpError::MalformedApplication),
            DataType::Literal(v) => Ok(copy_value(v)),
            DataType::Variable(x) => Ok(BasicType::Symbol(x.clone())),
        };
        match v {
            Ok(v) => {
                out.push(v);
            },
            Err(e) => {
                proof {
                    lemma_define_operands_error_sticks(terms@.drop_first(), i as int);
                    assert(terms@.drop_first().subrange(0, i as int) == pre);
                }
                return Err(e);
            },
        }
        i = i + 1;
    }
    assert(terms@.subrange(1, n as int) == terms@.drop_first());
    Ok(out)
}

/// Binds the first operand, which must be a symbol, to the second, in `env` itself.
/// Returns the symbol.
pub fn def(terms: &Vec<BasicType>, env: &mut Environment) -> (r: Result<BasicType, InterpError>)
    ensures
        match spec_def(terms@) {
            Ok((name, v)) => {
                &&& r == Ok::<BasicType, InterpError>(BasicType::Symbol(name))
                &&& final(env).variables@ == spec_define(old(env).variables@, name, DataType::Literal(v))
                &&& final(env).parent == old(env).parent
            },
            Err(e) => r == Err::<BasicType, InterpError>(e) && *final(env) == *old(env),
        },
{
    if terms.len() < 2 {
        return Err(InterpError::WrongArity);
    }
    match &terms[0] {
        BasicType::Symbol(x) => {
            let value = copy_value(&terms[1]);
            env.define(x.clone(), DataType::Literal(value));
            Ok(BasicType::Symbol(x.clone()))
        },
        _ => Err(InterpError::NonSymbolAssignment),
    }
}

/// A procedure literal evaluates to itself.
pub fn lambda(terms: &BasicType) -> (r: Result<BasicType, InterpError>)
    ensures
        terms is Procedure ==> r == Ok::<BasicType, InterpError>(*terms),
        !(terms is Procedure) ==> r == Err::<BasicType, InterpError>(InterpError::MalformedLambda),
{
    match terms {
        BasicType::Procedure(_) => Ok(copy_value(terms)),
        _ => Err(InterpError::MalformedLambda),
    }
}

/// Evaluates a term list: a single term stands for its value; a longer list is the
/// application of the operator at its head to the terms that follow.
pub fn eval<F: FloatOps>(terms: &Vec<DataType>, env: &mut Environment, ops: &F) -> (r: Result<
    BasicType,
    InterpError,
>)
    ensures
        result_model(r) == spec_eval(terms@, *old(env), result_bits(r)),
        eval_changes(terms@, *old(env), *final(env)),
        terms@.len() == 1 ==> (terms@[0] matches DataType::Literal(v) ==> r == Ok::<
            BasicType,
            InterpError,
        >(v)),
        terms@.len() == 1 ==> (terms@[0] matches DataType::Variable(x) ==> (spec_lookup(*old(env), x@)
            matches Some(DataType::Literal(v)) ==> r == Ok::<BasicType, InterpError>(v))),
        terms@.len() >= 2 && terms@[0] == DataType::Operator(OperatorType::Lambda) ==> (
        terms@[1] matches DataType::Literal(v) ==> (v is Procedure ==> r == Ok::<BasicType, InterpError>(v))),
{
    let n = terms.len();
    if n == 0 {
        return Err(InterpError::EmptyExpression);
    }
    if n == 1 {
        return eval_single(&terms[0], env);
    }
    let op = match &terms[0] {
        DataType::Operator(op) => *op,
        _ => return Err(InterpError::MalformedApplication),
    };
    match op {
        OperatorType::Lambda => match &terms[1] {
            DataType::Literal(v) => lambda(v),
            _ => Err(InterpError::MalformedLambda),
        },
        OperatorType::Define => match collect_define_operands(terms) {
            Ok(operands) => def(&operands, env),
            Err(e) => Err(e),
        },
        _ => {
            let operands = match resolve_operands(terms, env) {
                Ok(operands) => operands,
                Err(e) => return Err(e),
            };
            match op {
                OperatorType::Add => crate::eval::add(&operands, ops),
                OperatorType::Sub => crate::eval::sub(&operands, ops),
                OperatorType::Mul => crate::eval::mul(&operands, ops),
                OperatorType::Div => div(&operands, ops),
                _ => Err(InterpError::NotYetImplemented(op)),
            }
        },
    }
}

} // verus!
