use vstd::prelude::*;
use crate::error::InterpError;
use crate::value::{DataType, copy_term};
use crate::operator::str_equal;
use vstd::string::*;

verus! {

/// A scope: the names bound in it, and the scope it sits in, if any.
/// Where a name is bound twice in one frame, the earlier binding counts.
pub struct Environment {
    pub variables: Vec<(String, DataType)>,
    pub parent: Option<Box<Environment>>,
}

/// The position of the first binding of `name` in a frame.
pub open spec fn first_index(vars: Seq<(String, DataType)>, name: Seq<char>) -> Option<int>
    decreases vars.len(),
{
    if vars.len() == 0 {
        None
    } else if vars[0].0@ == name {
        Some(0)
    } else {
        match first_index(vars.drop_first(), name) {
            Some(k) => Some(k + 1),
            None => None,
        }
    }
}

/// The term that a frame binds `name` to, if any.
pub open spec fn frame_find(vars: Seq<(String, DataType)>, name: Seq<char>) -> Option<DataType> {
    match first_index(vars, name) {
        Some(i) => Some(vars[i].1),
        None => None,
    }
}

/// The term that `name` denotes in `env`: its own frame first, then the enclosing scopes.
pub open spec fn spec_lookup(env: Environment, name: Seq<char>) -> Option<DataType>
    decreases env,
{
    match frame_find(env.variables@, name) {
        Some(t) => Some(t),
        None => match env.parent {
            Some(p) => spec_lookup(*p, name),
            None => None,
        },
    }
}

/// A frame after binding `name` to `t`: an existing binding is replaced in place,
/// else the binding is added at the end.
pub open spec fn spec_define(vars: Seq<(String, DataType)>, name: String, t: DataType) -> Seq<
    (String, DataType),
> {
    match first_index(vars, name@) {
        Some(i) => vars.update(i, (name, t)),
        None => vars.push((name, t)),
    }
}

proof fn lemma_first_index_found(vars: Seq<(String, DataType)>, name: Seq<char>, i: int)
    requires
        0 <= i < vars.len(),
        vars[i].0@ == name,
        forall|j: int| 0 <= j < i ==> vars[j].0@ != name,
    ensures
        first_index(vars, name) == Some(i),
    decreases i,
{
    if i > 0 {
        lemma_first_index_found(vars.drop_first(), name, i - 1);
    }
}

proof fn lemma_first_index_absent(vars: Seq<(String, DataType)>, name: Seq<char>)
    requires
        forall|j: int| 0 <= j < vars.len() ==> vars[j].0@ != name,
    ensures
        first_index(vars, name) is None,
    decreases vars.len(),
{
    if vars.len() > 0 {
        lemma_first_index_absent(vars.drop_first(), name);
    }
}

proof fn lemma_first_index_bounds(vars: Seq<(String, DataType)>, name: Seq<char>)
    ensures
        first_index(vars, name) matches Some(i) ==> 0 <= i < vars.len() && vars[i].0@ == name
            && forall|j: int| 0 <= j < i ==> vars[j].0@ != name,
    decreases vars.len(),
{
    if vars.len() > 0 && vars[0].0@ != name {
        let rest = vars.drop_first();
        lemma_first_index_bounds(rest, name);
        if let Some(k) = first_index(rest, name) {
            assert forall|j: int| 0 <= j < k + 1 implies vars[j].0@ != name by {
                if j > 0 {
                    assert(vars[j] == rest[j - 1]);
                }
            }
        }
    }
}

proof fn lemma_first_index_none(vars: Seq<(String, DataType)>, name: Seq<char>)
    requires
        first_index(vars, name) is None,
    ensures
        forall|j: int| 0 <= j < vars.len() ==> vars[j].0@ != name,
    decreases vars.len(),
{
    if vars.len() > 0 {
        lemma_first_index_none(vars.drop_first(), name);
        assert forall|j: int| 0 <= j < vars.len() implies vars[j].0@ != name by {
            if j > 0 {
                assert(vars[j] == vars.drop_first()[j - 1]);
            }
        }
    }
}

/// Binding a name and then looking it up in the same scope gives back the bound term.
pub proof fn lemma_define_then_lookup(vars: Seq<(String, DataType)>, name: String, t: DataType)
    ensures
        frame_find(spec_define(vars, name, t), name@) == Some(t),
{
    lemma_first_index_bounds(vars, name@);
    let nv = spec_define(vars, name, t);
    match first_index(vars, name@) {
        Some(i) => {
            lemma_first_index_found(nv, name@, i);
        },
        None => {
            lemma_first_index_none(vars, name@);
            assert(forall|j: int| 0 <= j < vars.len() ==> nv[j] == vars[j]);
            lemma_first_index_found(nv, name@, vars.len() as int);
        },
    }
}

proof fn lemma_define_other(vars: Seq<(String, DataType)>, name: String, t: DataType, n: Seq<char>)
    requires
        n != name@,
    ensures
        frame_find(spec_define(vars, name, t), n) == frame_find(vars, n),
{
    let nv = spec_define(vars, name, t);
    lemma_first_index_bounds(vars, n);
    lemma_first_index_bounds(vars, name@);
    assert(forall|j: int| 0 <= j < vars.len() && vars[j].0@ == n ==> nv[j] == vars[j]);
    assert(forall|j: int| 0 <= j < nv.len() && nv[j].0@ == n ==> j < vars.len() && nv[j] == vars[j]);
    match first_index(vars, n) {
        Some(i) => {
            lemma_first_index_found(nv, n, i);
        },
        None => {
            lemma_first_index_none(vars, n);
            lemma_first_index_absent(nv, n);
        },
    }
}

/// A definition changes what one name denotes in the scope it is made in, and nothing
/// else: every other name keeps its meaning, and the enclosing scopes are not touched,
/// so a name defined in an inner scope never becomes visible from an outer one.
pub proof fn lemma_define_scoped(before: Environment, after: Environment, name: String, t: DataType)
    requires
        after.parent == before.parent,
        after.variables@ == spec_define(before.variables@, name, t),
    ensures
        spec_lookup(after, name@) == Some(t),
        forall|n: Seq<char>| n != name@ ==> spec_lookup(after, n) == spec_lookup(before, n),
{
    lemma_define_then_lookup(before.variables@, name, t);
    assert forall|n: Seq<char>| n != name@ implies spec_lookup(after, n) == spec_lookup(before, n) by {
        lemma_define_other(before.variables@, name, t, n);
    }
}

impl Environment {
    /// An empty scope with no enclosing scope.
    pub fn new() -> (r: Environment)
        ensures
            r.variables@.len() == 0,
            r.parent is None,
            forall|n: Seq<char>| spec_lookup(r, n) is None,
    {
        Environment { variables: Vec::new(), parent: None }
    }

    /// An empty scope inside `parent`.
    pub fn with_parent(parent: Environment) -> (r: Environment)
        ensures
            r.variables@.len() == 0,
            r.parent == Some(Box::new(parent)),
            forall|n: Seq<char>| spec_lookup(r, n) == spec_lookup(parent, n),
    {
        let r = Environment { variables: Vec::new(), parent: Some(Box::new(parent)) };
        assert forall|n: Seq<char>| spec_lookup(r, n) == spec_lookup(parent, n) by {
            assert(first_index(r.variables@, n) is None);
        }
        r
    }

    /// The term that this scope's own frame binds `name` to.
    pub fn find_local(&self, name: &str) -> (r: Option<DataType>)
        ensures
            r == frame_find(self.variables@, name@),
    {
        let mut i: usize = 0;
        while i < self.variables.len()
            invariant
                i <= self.variables@.len(),
                forall|j: int| 0 <= j < i ==> self.variables@[j].0@ != name@,
            decreases self.variables@.len() - i,
        {
            if str_equal(self.variables[i].0.as_str(), name) {
                proof {
                    lemma_first_index_found(self.variables@, name@, i as int);
                }
                return Some(copy_term(&self.variables[i].1));
            }
            i = i + 1;
        }
        proof {
            lemma_first_index_absent(self.variables@, name@);
        }
        None
    }

    /// Binds `name` to `term` in this scope's own frame, replacing an earlier binding of it
    /// there; the enclosing scopes are left alone.
    pub fn define(&mut self, name: String, term: DataType)
        ensures
            final(self).variables@ == spec_define(old(self).variables@, name, term),
            final(self).parent == old(self).parent,
            spec_lookup(*final(self), name@) == Some(term),
            forall|n: Seq<char>| n != name@ ==> spec_lookup(*final(self), n) == spec_lookup(*old(self), n),
    {
        let mut i: usize = 0;
        let n = self.variables.len();
        while i < n
            invariant
                n == self.variables@.len(),
                self == old(self),
                i <= n,
                forall|j: int| 0 <= j < i ==> self.variables@[j].0@ != name@,
            decreases n - i,
        {
            if str_equal(self.variables[i].0.as_str(), name.as_str()) {
                proof {
                    lemma_first_index_found(self.variables@, name@, i as int);
                }
                self.variables.set(i, (name, term));
                proof {
                    lemma_define_scoped(*old(self), *self, name, term);
                }
                return;
            }
            i = i + 1;
        }
        proof {
            lemma_first_index_absent(self.variables@, name@);
        }
        self.variables.push((name, term));
        proof {
            lemma_define_scoped(*old(self), *self, name, term);
        }
    }
}

/// What `var` denotes in `env`, searching the enclosing scopes in turn.
pub fn lookup(var: &String, env: &Environment) -> (r: Result<DataType, InterpError>)
    ensures
        match spec_lookup(*env, var@) {
            Some(t) => r == Ok::<DataType, InterpError>(t),
            None => r == Err::<DataType, InterpError>(InterpError::UnboundVariable(*var)),
        },
    decreases env,
{
    match env.find_local(var.as_str()) {
        Some(t) => Ok(t),
        None => match &env.parent {
            Some(p) => lookup(var, p),
            None => Err(InterpError::UnboundVariable(var.clone())),
        },
    }
}

} // verus!
