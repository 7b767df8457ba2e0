//! The compiler's symbol table: a stack of scopes over an ordered list
//! of variables, with per-scope, per-kind index counters.

use vstd::prelude::*;
use vstd::string::StringExecFns;

use crate::textparse::str_eq;

verus! {

/// Where a variable lives: a class field, a class static, a subroutine
/// argument, or a subroutine local.
#[derive(Debug, Copy, Clone, PartialEq, Eq, Structural)]
pub enum Scope {
    Field,
    Static,
    Argument,
    Local,
}

/// The memory segment a scope maps to.
pub open spec fn segment_name(s: Scope) -> Seq<char> {
    match s {
        Scope::Field => "this"@,
        Scope::Static => "static"@,
        Scope::Argument => "argument"@,
        Scope::Local => "local"@,
    }
}

impl Scope {
    /// The segment this scope maps to, as text.
    pub fn as_segment(&self) -> (r: String)
        ensures
            r@ == segment_name(*self),
    {
        match self {
            Scope::Field => String::from_str("this"),
            Scope::Static => String::from_str("static"),
            Scope::Argument => String::from_str("argument"),
            Scope::Local => String::from_str("local"),
        }
    }
}

/// One table entry.
#[derive(Debug)]
pub struct SymbolTableVariable {
    pub name: String,
    pub scope: Scope,
    pub var_type: String,
    pub index: usize,
}

/// The abstract shape of one entry.
pub struct SymVarV {
    pub name: Seq<char>,
    pub scope: Scope,
    pub var_type: Seq<char>,
    pub index: int,
}

/// The abstract shape of the table: the entries and the scope-start
/// stack.
pub struct SymTabV {
    pub vars: Seq<SymVarV>,
    pub scopes: Seq<int>,
}

/// The abstract shape of an entry.
pub open spec fn sym_var_view(v: SymbolTableVariable) -> SymVarV {
    SymVarV { name: v.name@, scope: v.scope, var_type: v.var_type@, index: v.index as int }
}

impl SymbolTableVariable {
    pub fn new(name: &str, var_type: &str, scope: Scope, index: usize) -> (r: Self)
        ensures
            sym_var_view(r) == (SymVarV {
                name: name@,
                scope,
                var_type: var_type@,
                index: index as int,
            }),
    {
        SymbolTableVariable {
            name: String::from_str(name),
            var_type: String::from_str(var_type),
            scope,
            index,
        }
    }

    pub fn name(&self) -> (r: &str)
        ensures
            r@ == self.name@,
    {
        self.name.as_str()
    }

    pub fn scope(&self) -> (r: Scope)
        ensures
            r == self.scope,
    {
        self.scope
    }

    pub fn var_type(&self) -> (r: &str)
        ensures
            r@ == self.var_type@,
    {
        self.var_type.as_str()
    }

    pub fn index(&self) -> (r: usize)
        ensures
            r == self.index,
    {
        self.index
    }
}

/// The ordered table with its scope stack.
#[derive(Debug)]
pub struct SymbolTable {
    pub vars: Vec<SymbolTableVariable>,
    pub scopes: Vec<usize>,
}

/// The abstract shape of the table.
pub open spec fn st_view(t: SymbolTable) -> SymTabV {
    SymTabV {
        vars: Seq::new(t.vars@.len(), |i: int| sym_var_view(t.vars@[i])),
        scopes: Seq::new(t.scopes@.len(), |i: int| t.scopes@[i] as int),
    }
}

/// Where the innermost scope starts in the entry list.
pub open spec fn scope_start(t: SymTabV) -> int {
    if t.scopes.len() == 0 {
        0
    } else {
        t.scopes.last()
    }
}

/// One more than the highest index of the given kind among the entries,
/// or zero if there is none.
pub open spec fn spec_next_index(vars: Seq<SymVarV>, scope: Scope) -> int
    decreases vars.len(),
{
    if vars.len() == 0 {
        0
    } else {
        let rest = spec_next_index(vars.drop_last(), scope);
        if vars.last().scope == scope {
            if rest > vars.last().index + 1 {
                rest
            } else {
                vars.last().index + 1
            }
        } else {
            rest
        }
    }
}

/// The next free index of a kind: counted within the innermost scope,
/// over the whole table when no scope is open.
pub open spec fn table_next_index(t: SymTabV, scope: Scope) -> int {
    spec_next_index(t.vars.skip(scope_start_clamped(t)), scope)
}

/// The scope start, clamped into the entry list.
pub open spec fn scope_start_clamped(t: SymTabV) -> int {
    let s = scope_start(t);
    if s < 0 {
        0
    } else if s > t.vars.len() {
        t.vars.len() as int
    } else {
        s
    }
}

/// The table after adding one entry of the given kind.
pub open spec fn spec_add(t: SymTabV, name: Seq<char>, var_type: Seq<char>, scope: Scope) -> SymTabV {
    SymTabV {
        vars: t.vars.push(
            SymVarV { name, scope, var_type, index: table_next_index(t, scope) },
        ),
        scopes: t.scopes,
    }
}

/// The innermost entry of the given name, if any.
pub open spec fn spec_find(vars: Seq<SymVarV>, name: Seq<char>) -> Option<SymVarV>
    decreases vars.len(),
{
    if vars.len() == 0 {
        None
    } else if vars.last().name == name {
        Some(vars.last())
    } else {
        spec_find(vars.drop_last(), name)
    }
}

/// How many entries of a kind the table holds.
pub open spec fn count_scope(vars: Seq<SymVarV>, scope: Scope) -> int
    decreases vars.len(),
{
    if vars.len() == 0 {
        0
    } else {
        count_scope(vars.drop_last(), scope) + (if vars.last().scope == scope {
            1int
        } else {
            0int
        })
    }
}

impl SymbolTable {
    pub fn new() -> (t: Self)
        ensures
            st_view(t) == (SymTabV { vars: Seq::<SymVarV>::empty(), scopes: Seq::<int>::empty() }),
    {
        let t = SymbolTable { vars: Vec::new(), scopes: Vec::new() };
        proof {
            assert(st_view(t).vars =~= Seq::<SymVarV>::empty());
            assert(st_view(t).scopes =~= Seq::<int>::empty());
        }
        t
    }

    /// The next free index of a kind within the innermost scope.
    fn find_next_index(&self, scope: Scope) -> (r: usize)
        requires
            table_wf(st_view(*self)),
        ensures
            r as int == table_next_index(st_view(*self), scope),
            r as int <= st_view(*self).vars.len(),
    {
        let scope_start_index = if self.scopes.len() == 0 {
            0
        } else {
            let s = self.scopes[self.scopes.len() - 1];
            if s > self.vars.len() {
                self.vars.len()
            } else {
                s
            }
        };
        let ghost tv = st_view(*self);
        proof {
            assert(scope_start_index as int == scope_start_clamped(tv));
        }
        let mut r: usize = 0;
        let mut k: usize = scope_start_index;
        proof {
            assert(tv.vars.skip(scope_start_clamped(tv)).take(0) =~= Seq::<SymVarV>::empty());
        }
        while k < self.vars.len()
            invariant
                scope_start_index <= k <= self.vars@.len(),
                tv == st_view(*self),
                table_wf(tv),
                scope_start_index as int == scope_start_clamped(tv),
                r <= k,
                r as int == spec_next_index(
                    tv.vars.skip(scope_start_clamped(tv)).take(k - scope_start_index),
                    scope,
                ),
            decreases self.vars@.len() - k,
        {
            let ghost sub = tv.vars.skip(scope_start_clamped(tv));
            let ghost pre = sub.take(k - scope_start_index);
            proof {
                assert(sub.take(k - scope_start_index + 1).drop_last() =~= pre);
                assert(sub.take(k - scope_start_index + 1).last() == tv.vars[k as int]);
            }
            let same = match (self.vars[k].scope, scope) {
                (Scope::Field, Scope::Field) => true,
                (Scope::Static, Scope::Static) => true,
                (Scope::Argument, Scope::Argument) => true,
                (Scope::Local, Scope::Local) => true,
                _ => false,
            };
            if same {
                let candidate = self.vars[k].index + 1;
                if candidate > r {
                    r = candidate;
                }
            }
            k = k + 1;
        }
        proof {
            let sub = tv.vars.skip(scope_start_clamped(tv));
            assert(sub.take(k - scope_start_index) =~= sub);
        }
        r
    }

    /// Adds a class field.
    pub fn add_field(&mut self, var_name: &str, var_type: &str)
        requires
            table_wf(st_view(*old(self))),
        ensures
            table_wf(st_view(*final(self))),
            st_view(*final(self)) == spec_add(st_view(*old(self)), var_name@, var_type@, Scope::Field),
    {
        let index = self.find_next_index(Scope::Field);
        let ghost pre = st_view(*self);
        self.vars.push(SymbolTableVariable::new(var_name, var_type, Scope::Field, index));
        proof {
            assert(st_view(*self).vars =~= pre.vars.push(
                SymVarV {
                    name: var_name@,
                    scope: Scope::Field,
                    var_type: var_type@,
                    index: index as int,
                },
            ));
            assert(st_view(*self).scopes =~= pre.scopes);
        }
    }

    /// Adds a class static.
    pub fn add_static(&mut self, var_name: &str, var_type: &str)
        requires
            table_wf(st_view(*old(self))),
        ensures
            table_wf(st_view(*final(self))),
            st_view(*final(self)) == spec_add(
                st_view(*old(self)),
                var_name@,
                var_type@,
                Scope::Static,
            ),
    {
        let index = self.find_next_index(Scope::Static);
        let ghost pre = st_view(*self);
        self.vars.push(SymbolTableVariable::new(var_name, var_type, Scope::Static, index));
        proof {
            assert(st_view(*self).vars =~= pre.vars.push(
                SymVarV {
                    name: var_name@,
                    scope: Scope::Static,
                    var_type: var_type@,
                    index: index as int,
                },
            ));
            assert(st_view(*self).scopes =~= pre.scopes);
        }
    }

    /// Adds a subroutine argument.
    pub fn add_argument(&mut self, var_name: &str, var_type: &str)
        requires
            table_wf(st_view(*old(self))),
        ensures
            table_wf(st_view(*final(self))),
            st_view(*final(self)) == spec_add(
                st_view(*old(self)),
                var_name@,
                var_type@,
                Scope::Argument,
            ),
    {
        let index = self.find_next_index(Scope::Argument);
        let ghost pre = st_view(*self);
        self.vars.push(SymbolTableVariable::new(var_name, var_type, Scope::Argument, index));
        proof {
            assert(st_view(*self).vars =~= pre.vars.push(
                SymVarV {
                    name: var_name@,
                    scope: Scope::Argument,
                    var_type: var_type@,
                    index: index as int,
                },
            ));
            assert(st_view(*self).scopes =~= pre.scopes);
        }
    }

    /// Adds a subroutine local.
    pub fn add_local(&mut self, var_name: &str, var_type: &str)
        requires
            table_wf(st_view(*old(self))),
        ensures
            table_wf(st_view(*final(self))),
            st_view(*final(self)) == spec_add(st_view(*old(self)), var_name@, var_type@, Scope::Local),
    {
        let index = self.find_next_index(Scope::Local);
        let ghost pre = st_view(*self);
        self.vars.push(SymbolTableVariable::new(var_name, var_type, Scope::Local, index));
        proof {
            assert(st_view(*self).vars =~= pre.vars.push(
                SymVarV {
                    name: var_name@,
                    scope: Scope::Local,
                    var_type: var_type@,
                    index: index as int,
                },
            ));
            assert(st_view(*self).scopes =~= pre.scopes);
        }
    }

    /// How many locals the table holds.
    pub fn count_locals(&self) -> (r: usize)
        ensures
            r as int == count_scope(st_view(*self).vars, Scope::Local),
    {
        self.count_of(Scope::Local)
    }

    /// How many fields the table holds.
    pub fn count_fields(&self) -> (r: usize)
        ensures
            r as int == count_scope(st_view(*self).vars, Scope::Field),
    {
        self.count_of(Scope::Field)
    }

    /// Counts the entries of one kind.
    fn count_of(&self, scope: Scope) -> (r: usize)
        ensures
            r as int == count_scope(st_view(*self).vars, scope),
    {
        let ghost tv = st_view(*self);
        let mut r: usize = 0;
        let mut k: usize = 0;
        proof {
            assert(tv.vars.take(0) =~= Seq::<SymVarV>::empty());
        }
        while k < self.vars.len()
            invariant
                k <= self.vars@.len(),
                tv == st_view(*self),
                r <= k,
                r as int == count_scope(tv.vars.take(k as int), scope),
            decreases self.vars@.len() - k,
        {
            proof {
                assert(tv.vars.take(k + 1).drop_last() =~= tv.vars.take(k as int));
                assert(tv.vars.take(k + 1).last() == tv.vars[k as int]);
            }
            let same = match (self.vars[k].scope, scope) {
                (Scope::Field, Scope::Field) => true,
                (Scope::Static, Scope::Static) => true,
                (Scope::Argument, Scope::Argument) => true,
                (Scope::Local, Scope::Local) => true,
                _ => false,
            };
            if same {
                r = r + 1;
            }
            k = k + 1;
        }
        proof {
            assert(tv.vars.take(k as int) =~= tv.vars);
        }
        r
    }

    /// The innermost variable of the given name.
    pub fn find_variable(&self, var_name: &str) -> (r: Option<SymbolTableVariable>)
        ensures
            match spec_find(st_view(*self).vars, var_name@) {
                Some(v) => r matches Some(x) && sym_var_view(x) == v,
                None => r is None,
            },
    {
        let ghost tv = st_view(*self);
        let mut k = self.vars.len();
        proof {
            assert(tv.vars.take(k as int) =~= tv.vars);
        }
        while k > 0
            invariant
                k <= self.vars@.len(),
                tv == st_view(*self),
                spec_find(tv.vars, var_name@) == spec_find(tv.vars.take(k as int), var_name@),
            decreases k,
        {
            let k2 = k - 1;
            proof {
                assert(tv.vars.take(k as int).drop_last() =~= tv.vars.take(k2 as int));
                assert(tv.vars.take(k as int).last() == tv.vars[k2 as int]);
            }
            if str_eq(self.vars[k2].name.as_str(), var_name) {
                let entry = &self.vars[k2];
                let copy = SymbolTableVariable {
                    name: entry.name.clone(),
                    scope: entry.scope,
                    var_type: entry.var_type.clone(),
                    index: entry.index,
                };
                return Some(copy);
            }
            k = k2;
        }
        proof {
            assert(tv.vars.take(0) =~= Seq::<SymVarV>::empty());
        }
        None
    }

    /// Opens a scope at the current end of the table.
    pub fn create_scope(&mut self)
        ensures
            st_view(*final(self)).vars == st_view(*old(self)).vars,
            st_view(*final(self)).scopes == st_view(*old(self)).scopes.push(
                st_view(*old(self)).vars.len() as int,
            ),
    {
        let ghost pre = st_view(*self);
        let len = self.vars.len();
        self.scopes.push(len);
        proof {
            assert(st_view(*self).vars =~= pre.vars);
            assert(st_view(*self).scopes =~= pre.scopes.push(pre.vars.len() as int));
        }
    }

    /// Closes the innermost scope, dropping its variables.
    pub fn pop_scope(&mut self)
        ensures
            st_view(*final(self)) == spec_pop_scope(st_view(*old(self))),
    {
        let ghost pre = st_view(*self);
        if self.scopes.len() > 0 {
            let index = self.scopes[self.scopes.len() - 1];
            self.scopes.pop();
            let keep = if index > self.vars.len() {
                self.vars.len()
            } else {
                index
            };
            self.vars.truncate(keep);
            proof {
                assert(st_view(*self).vars =~= pre.vars.take(
                    scope_start_clamped(SymTabV { vars: pre.vars, scopes: pre.scopes }),
                ));
                assert(st_view(*self).scopes =~= pre.scopes.drop_last());
            }
        }
    }
}

/// A well-formed table: each entry's index is at most its position, so
/// indices stay within machine range as the table grows.
pub open spec fn table_wf(t: SymTabV) -> bool {
    forall|i: int| 0 <= i < t.vars.len() ==> (#[trigger] t.vars[i]).index <= i
}

/// The next index computed over a slice is bounded by the slice's end
/// position, when each entry's index is bounded by its position.
pub proof fn lemma_next_index_bound(vars: Seq<SymVarV>, scope: Scope, off: int)
    requires
        forall|j: int| 0 <= j < vars.len() ==> (#[trigger] vars[j]).index <= off + j,
        off >= 0,
    ensures
        0 <= spec_next_index(vars, scope) <= off + vars.len(),
    decreases vars.len(),
{
    if vars.len() > 0 {
        assert(forall|j: int|
            0 <= j < vars.drop_last().len() ==> (#[trigger] vars.drop_last()[j]).index <= off + j);
        lemma_next_index_bound(vars.drop_last(), scope, off);
    }
}

/// Adding an entry keeps the table well formed.
pub proof fn lemma_add_preserves_wf(t: SymTabV, name: Seq<char>, var_type: Seq<char>, scope: Scope)
    requires
        table_wf(t),
    ensures
        table_wf(spec_add(t, name, var_type, scope)),
        0 <= table_next_index(t, scope) <= t.vars.len(),
{
    let off = scope_start_clamped(t);
    let sub = t.vars.skip(off);
    assert(forall|j: int| 0 <= j < sub.len() ==> (#[trigger] sub[j]).index <= off + j);
    lemma_next_index_bound(sub, scope, off);
}

/// The table after closing the innermost scope.
pub open spec fn spec_pop_scope(t: SymTabV) -> SymTabV {
    if t.scopes.len() == 0 {
        t
    } else {
        SymTabV { vars: t.vars.take(scope_start_clamped(t)), scopes: t.scopes.drop_last() }
    }
}

} // verus!
