//! One scope of the environment: a mapping from names to values.
use crate::value::{copy_value, value_model, Value, ValueModel};
use vstd::prelude::*;

verus! {

pub struct Binding {
    pub name: String,
    pub value: Value,
}

/// A scope: its bindings, one per name, in order of first definition.
pub struct Environment {
    pub bindings: Vec<Binding>,
}

/// The model of a scope: name and value pairs.
pub type ScopeModel = Seq<(Seq<char>, ValueModel)>;

pub open spec fn binding_model(b: Binding) -> (Seq<char>, ValueModel) {
    (b.name@, value_model(b.value))
}

pub open spec fn scope_model(e: Environment) -> ScopeModel {
    e.bindings@.map_values(|b: Binding| binding_model(b))
}

/// The index of the binding of `name` in a scope, or -1.
pub open spec fn find(s: ScopeModel, name: Seq<char>) -> int
    decreases s.len(),
{
    if s.len() == 0 {
        -1
    } else if s.last().0 == name {
        s.len() - 1
    } else {
        find(s.drop_last(), name)
    }
}

pub proof fn lemma_find(s: ScopeModel, name: Seq<char>)
    ensures
        -1 <= find(s, name) < s.len(),
        find(s, name) >= 0 ==> s[find(s, name)].0 == name,
        find(s, name) == -1 ==> forall|i: int| 0 <= i < s.len() ==> #[trigger] s[i].0 != name,
    decreases s.len(),
{
    if s.len() > 0 {
        lemma_find(s.drop_last(), name);
        if s.last().0 != name {
            assert forall|i: int| 0 <= i < s.len() && find(s, name) == -1 implies #[trigger] s[i].0
                != name by {
                if i < s.len() - 1 {
                    assert(s.drop_last()[i] == s[i]);
                }
            }
        }
    }
}

/// `define`: overwrite the binding of `name` where there is one, else add one.
pub open spec fn define_in(s: ScopeModel, name: Seq<char>, v: ValueModel) -> ScopeModel {
    if find(s, name) >= 0 {
        s.update(find(s, name), (name, v))
    } else {
        s.push((name, v))
    }
}

impl Environment {
    pub fn new() -> (r: Environment)
        ensures
            scope_model(r) == Seq::<(Seq<char>, ValueModel)>::empty(),
    {
        let r = Environment { bindings: Vec::new() };
        assert(scope_model(r) =~= Seq::<(Seq<char>, ValueModel)>::empty());
        r
    }

    fn index_of(&self, name: &String) -> (r: Option<usize>)
        ensures
            match r {
                Some(i) => find(scope_model(*self), name@) == i as int && i < self.bindings@.len(),
                None => find(scope_model(*self), name@) == -1,
            },
    {
        let ghost s = scope_model(*self);
        let mut i: usize = self.bindings.len();
        assert(s.subrange(0, i as int) =~= s);
        while i > 0
            invariant
                i <= self.bindings@.len(),
                s == scope_model(*self),
                find(s, name@) == find(s.subrange(0, i as int), name@),
            decreases i,
        {
            i -= 1;
            assert(s.subrange(0, i + 1).drop_last() =~= s.subrange(0, i as int));
            if self.bindings[i].name == *name {
                return Some(i);
            }
        }
        None
    }

    /// Binds `name` to `value` in this scope, replacing an earlier binding.
    pub fn define(&mut self, name: &String, value: Value)
        ensures
            scope_model(*final(self)) == define_in(scope_model(*old(self)), name@, value_model(value)),
    {
        let ghost vm = value_model(value);
        proof {
            lemma_find(scope_model(*self), name@);
        }
        match self.index_of(name) {
            Some(i) => {
                self.bindings[i].value = value;
                assert(scope_model(*self) =~= define_in(scope_model(*old(self)), name@, vm));
            },
            None => {
                self.bindings.push(Binding { name: name.clone(), value });
                assert(scope_model(*self) =~= define_in(scope_model(*old(self)), name@, vm));
            },
        }
    }

    /// Whether this scope binds `name`.
    pub fn binds(&self, name: &String) -> (r: bool)
        ensures
            r == (find(scope_model(*self), name@) >= 0),
    {
        match self.index_of(name) {
            Some(_) => true,
            None => false,
        }
    }

    /// The value bound to `name` in this scope, if any.
    pub fn get(&self, name: &String) -> (r: Option<Value>)
        ensures
            match r {
                Some(v) => find(scope_model(*self), name@) >= 0 && value_model(v) == scope_model(
                    *self,
                )[find(scope_model(*self), name@)].1,
                None => find(scope_model(*self), name@) == -1,
            },
    {
        proof {
            lemma_find(scope_model(*self), name@);
        }
        match self.index_of(name) {
            Some(i) => Some(copy_value(&self.bindings[i].value)),
            None => None,
        }
    }

    /// Rebinds `name` where this scope binds it; reports whether it did.
    pub fn assign(&mut self, name: &String, value: Value) -> (r: bool)
        ensures
            r == (find(scope_model(*old(self)), name@) >= 0),
            r ==> scope_model(*final(self)) == scope_model(*old(self)).update(
                find(scope_model(*old(self)), name@),
                (name@, value_model(value)),
            ),
            !r ==> scope_model(*final(self)) == scope_model(*old(self)),
    {
        let ghost vm = value_model(value);
        match self.index_of(name) {
            Some(i) => {
                proof {
                    lemma_find(scope_model(*self), name@);
                }
                self.bindings[i].value = value;
                assert(scope_model(*self) =~= scope_model(*old(self)).update(i as int, (name@, vm)));
                true
            },
            None => false,
        }
    }
}

} // verus!
