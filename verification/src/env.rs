//! The variable environment: a stack of scopes, global at the bottom and one
//! scope per active function call above it.  Lookups walk the stack from the
//! top; writes locate a variable per the requested lookup mode and install a
//! value there, or create the variable in the requested scope.

use vstd::prelude::*;

use crate::error::{Error, ErrorKind};
use crate::variables::{ShellValue, ShellValueLiteral, ShellVariable};

verus! {

/// Where a write looks for an existing variable.
#[derive(Clone, Copy, PartialEq, Eq, Structural, Debug)]
pub enum EnvironmentLookup {
    /// Anywhere up the scope stack, nearest scope first.
    Anywhere,
    /// Only in the global scope.
    OnlyInGlobal,
    /// Only in the scope on top of the stack.
    OnlyInCurrentScope,
}

/// The scope a newly created variable lands in.
#[derive(Clone, Copy, PartialEq, Eq, Structural, Debug)]
pub enum EnvironmentScope {
    Global,
    Current,
}

/// The flag adjustment a write applies to the variable it touches.
#[derive(Clone, Copy, PartialEq, Eq, Structural, Debug)]
pub enum VariableMutation {
    Keep,
    Export,
    Unexport,
}

/// One scope: the variables bound at one level of the stack, in binding
/// order.  The latest binding of a name wins.
pub type VarScope = Vec<(String, ShellVariable)>;

/// The variable a scope binds `name` to, searching latest bindings first.
pub open spec fn scope_find(s: Seq<(String, ShellVariable)>, name: Seq<char>) -> Option<
    ShellVariable,
>
    decreases s.len(),
{
    if s.len() == 0 {
        None
    } else if s.last().0@ == name {
        Some(s.last().1)
    } else {
        scope_find(s.drop_last(), name)
    }
}

/// How many bindings of `name` a scope holds.
pub open spec fn scope_count(s: Seq<(String, ShellVariable)>, name: Seq<char>) -> nat
    decreases s.len(),
{
    if s.len() == 0 {
        0
    } else if s.last().0@ == name {
        scope_count(s.drop_last(), name) + 1
    } else {
        scope_count(s.drop_last(), name)
    }
}

/// The variable a stack of scopes binds `name` to, nearest scope first.
pub open spec fn lookup_in(scopes: Seq<VarScope>, name: Seq<char>) -> Option<ShellVariable>
    decreases scopes.len(),
{
    if scopes.len() == 0 {
        None
    } else {
        match scope_find(scopes.last()@, name) {
            Some(v) => Some(v),
            None => lookup_in(scopes.drop_last(), name),
        }
    }
}

/// How many bindings of `name` the whole stack holds.
pub open spec fn count_in(scopes: Seq<VarScope>, name: Seq<char>) -> nat
    decreases scopes.len(),
{
    if scopes.len() == 0 {
        0
    } else {
        count_in(scopes.drop_last(), name) + scope_count(scopes.last()@, name)
    }
}

/// The scoped variable environment.
#[derive(Clone, Debug)]
pub struct ShellEnvironment {
    pub scopes: Vec<VarScope>,
}

impl ShellEnvironment {
    /// The global scope is always present.
    pub open spec fn wf(self) -> bool {
        self.scopes@.len() >= 1
    }

    /// The number of scopes on the stack.
    pub open spec fn spec_depth(self) -> nat {
        self.scopes@.len()
    }

    /// The variable `name` resolves to, nearest scope first.
    pub open spec fn spec_lookup(self, name: Seq<char>) -> Option<ShellVariable> {
        lookup_in(self.scopes@, name)
    }

    /// How many bindings of `name` exist across all scopes.
    pub open spec fn spec_count(self, name: Seq<char>) -> nat {
        count_in(self.scopes@, name)
    }

    /// The variable a write's lookup mode finds.
    pub open spec fn spec_mode_find(self, name: Seq<char>, mode: EnvironmentLookup) -> Option<
        ShellVariable,
    > {
        match mode {
            EnvironmentLookup::Anywhere => self.spec_lookup(name),
            EnvironmentLookup::OnlyInGlobal => scope_find(self.scopes@[0]@, name),
            EnvironmentLookup::OnlyInCurrentScope => scope_find(self.scopes@.last()@, name),
        }
    }

    /// A fresh environment: one empty global scope.
    pub fn new() -> (r: ShellEnvironment)
        ensures
            r.wf(),
            r.spec_depth() == 1,
            forall|n: Seq<char>| r.spec_lookup(n) is None,
            forall|n: Seq<char>| r.spec_count(n) == 0,
    {
        let mut scopes: Vec<VarScope> = Vec::new();
        let global: VarScope = Vec::new();
        scopes.push(global);
        let r = ShellEnvironment { scopes };
        proof {
            assert forall|n: Seq<char>| r.spec_lookup(n) is None by {
                reveal_with_fuel(lookup_in, 2);
                assert(r.scopes@.drop_last() =~= Seq::<VarScope>::empty());
                assert(r.scopes@.last()@ =~= Seq::<(String, ShellVariable)>::empty());
            }
            assert forall|n: Seq<char>| r.spec_count(n) == 0 by {
                reveal_with_fuel(count_in, 2);
                assert(r.scopes@.drop_last() =~= Seq::<VarScope>::empty());
                assert(r.scopes@.last()@ =~= Seq::<(String, ShellVariable)>::empty());
            }
        }
        r
    }

    /// The number of scopes on the stack.
    pub fn depth(&self) -> (d: usize)
        ensures
            d == self.spec_depth(),
    {
        self.scopes.len()
    }

    /// Pushes a scope for a function call.
    pub fn push_scope(&mut self)
        ensures
            final(self).wf(),
            final(self).spec_depth() == old(self).spec_depth() + 1,
            final(self).scopes@.drop_last() =~= old(self).scopes@,
            final(self).scopes@.last()@ =~= Seq::<(String, ShellVariable)>::empty(),
    {
        let fresh: VarScope = Vec::new();
        self.scopes.push(fresh);
    }

    /// Pops the scope a function call pushed.
    pub fn pop_scope(&mut self) -> (r: Result<(), Error>)
        ensures
            old(self).spec_depth() > 1 ==> {
                &&& r is Ok
                &&& final(self).scopes@ =~= old(self).scopes@.drop_last()
            },
            old(self).spec_depth() <= 1 ==> {
                &&& r is Err
                &&& final(self).scopes@ =~= old(self).scopes@
            },
    {
        if self.scopes.len() > 1 {
            let _ = self.scopes.pop();
            Ok(())
        } else {
            Err(Error::new(ErrorKind::Io(String::from_str("global scope cannot be popped"))))
        }
    }
}

/// Dropping an unmatched last entry does not change what a prefix binds.
proof fn lemma_scope_find_prefix(s: Seq<(String, ShellVariable)>, name: Seq<char>, i: int)
    requires
        0 < i <= s.len(),
        s[i - 1].0@ != name,
    ensures
        scope_find(s.subrange(0, i), name) == scope_find(s.subrange(0, i - 1), name),
{
    assert(s.subrange(0, i).drop_last() =~= s.subrange(0, i - 1));
}

/// Dropping a scope that does not bind `name` does not change the lookup.
proof fn lemma_lookup_prefix(scopes: Seq<VarScope>, name: Seq<char>, i: int)
    requires
        0 < i <= scopes.len(),
        scope_find(scopes[i - 1]@, name) is None,
    ensures
        lookup_in(scopes.subrange(0, i), name) == lookup_in(scopes.subrange(0, i - 1), name),
{
    assert(scopes.subrange(0, i).drop_last() =~= scopes.subrange(0, i - 1));
}

/// Replacing an entry by one with the same name keeps every count, and every
/// other name's binding.
proof fn lemma_scope_update_same_name(
    s: Seq<(String, ShellVariable)>,
    i: int,
    e2: (String, ShellVariable),
    n: Seq<char>,
)
    requires
        0 <= i < s.len(),
        e2.0@ == s[i].0@,
    ensures
        scope_count(s.update(i, e2), n) == scope_count(s, n),
        n != e2.0@ ==> scope_find(s.update(i, e2), n) == scope_find(s, n),
    decreases s.len(),
{
    let s2 = s.update(i, e2);
    if i == s.len() - 1 {
        assert(s2.last() == e2);
        assert(s2.drop_last() =~= s.drop_last());
    } else {
        assert(s2.last() == s.last());
        assert(s2.drop_last() =~= s.drop_last().update(i, e2));
        lemma_scope_update_same_name(s.drop_last(), i, e2, n);
    }
}

/// After replacing the latest binding of `name`, the scope binds `name` to
/// the new variable.
proof fn lemma_scope_update_found(
    s: Seq<(String, ShellVariable)>,
    i: int,
    e2: (String, ShellVariable),
)
    requires
        0 <= i < s.len(),
        e2.0@ == s[i].0@,
        forall|j: int| i < j < s.len() ==> s[j].0@ != s[i].0@,
    ensures
        scope_find(s.update(i, e2), e2.0@) == Some(e2.1),
    decreases s.len(),
{
    let s2 = s.update(i, e2);
    if i == s.len() - 1 {
        assert(s2.last() == e2);
    } else {
        assert(s2.last() == s.last());
        assert(s2.drop_last() =~= s.drop_last().update(i, e2));
        lemma_scope_update_found(s.drop_last(), i, e2);
    }
}

/// What appending a binding does to a scope's finds and counts.
proof fn lemma_scope_push(s: Seq<(String, ShellVariable)>, e: (String, ShellVariable), n: Seq<char>)
    ensures
        scope_find(s.push(e), e.0@) == Some(e.1),
        scope_count(s.push(e), e.0@) == scope_count(s, e.0@) + 1,
        n != e.0@ ==> scope_find(s.push(e), n) == scope_find(s, n),
        n != e.0@ ==> scope_count(s.push(e), n) == scope_count(s, n),
{
    assert(s.push(e).drop_last() =~= s);
    assert(s.push(e).last() == e);
}

/// What removing the latest binding of `name` does to finds and counts.
proof fn lemma_scope_remove(s: Seq<(String, ShellVariable)>, i: int, n: Seq<char>)
    requires
        0 <= i < s.len(),
        forall|j: int| i < j < s.len() ==> s[j].0@ != s[i].0@,
    ensures
        scope_count(s.remove(i), s[i].0@) + 1 == scope_count(s, s[i].0@),
        n != s[i].0@ ==> scope_find(s.remove(i), n) == scope_find(s, n),
        n != s[i].0@ ==> scope_count(s.remove(i), n) == scope_count(s, n),
    decreases s.len(),
{
    let s2 = s.remove(i);
    if i == s.len() - 1 {
        assert(s2 =~= s.drop_last());
    } else {
        assert(s2.last() == s.last());
        assert(s2.drop_last() =~= s.drop_last().remove(i));
        lemma_scope_remove(s.drop_last(), i, n);
    }
}

/// Replacing one scope by one that binds `n` identically (same find, same
/// count) leaves the stack's view of `n` unchanged.
proof fn lemma_lookup_in_update(scopes: Seq<VarScope>, si: int, s2: VarScope, n: Seq<char>)
    requires
        0 <= si < scopes.len(),
        scope_find(s2@, n) == scope_find(scopes[si]@, n),
        scope_count(s2@, n) == scope_count(scopes[si]@, n),
    ensures
        lookup_in(scopes.update(si, s2), n) == lookup_in(scopes, n),
        count_in(scopes.update(si, s2), n) == count_in(scopes, n),
    decreases scopes.len(),
{
    let sc2 = scopes.update(si, s2);
    if si == scopes.len() - 1 {
        assert(sc2.last() == s2);
        assert(sc2.drop_last() =~= scopes.drop_last());
    } else {
        assert(sc2.last() == scopes.last());
        assert(sc2.drop_last() =~= scopes.drop_last().update(si, s2));
        lemma_lookup_in_update(scopes.drop_last(), si, s2, n);
    }
}

/// After replacing scope `si` by one that binds `n` to `v`, and with no scope
/// above `si` binding `n`, the stack binds `n` to `v`.
proof fn lemma_lookup_in_update_found(
    scopes: Seq<VarScope>,
    si: int,
    s2: VarScope,
    n: Seq<char>,
    v: ShellVariable,
)
    requires
        0 <= si < scopes.len(),
        scope_find(s2@, n) == Some(v),
        forall|k: int| si < k < scopes.len() ==> scope_find(#[trigger] scopes[k]@, n) is None,
    ensures
        lookup_in(scopes.update(si, s2), n) == Some(v),
    decreases scopes.len(),
{
    let sc2 = scopes.update(si, s2);
    if si == scopes.len() - 1 {
        assert(sc2.last() == s2);
    } else {
        assert(sc2.last() == scopes.last());
        assert(scopes[scopes.len() - 1]@ == scopes.last()@);
        assert(sc2.drop_last() =~= scopes.drop_last().update(si, s2));
        assert forall|k: int| si < k < scopes.len() - 1 implies scope_find(
            #[trigger] scopes.drop_last()[k]@,
            n,
        ) is None by {
            assert(scopes.drop_last()[k] == scopes[k]);
        }
        lemma_lookup_in_update_found(scopes.drop_last(), si, s2, n, v);
    }
}

/// How replacing one scope shifts the stack-wide count of `n`.
proof fn lemma_count_in_update(scopes: Seq<VarScope>, si: int, s2: VarScope, n: Seq<char>)
    requires
        0 <= si < scopes.len(),
    ensures
        count_in(scopes.update(si, s2), n) + scope_count(scopes[si]@, n) == count_in(scopes, n)
            + scope_count(s2@, n),
    decreases scopes.len(),
{
    let sc2 = scopes.update(si, s2);
    if si == scopes.len() - 1 {
        assert(sc2.last() == s2);
        assert(sc2.drop_last() =~= scopes.drop_last());
    } else {
        assert(sc2.last() == scopes.last());
        assert(sc2.drop_last() =~= scopes.drop_last().update(si, s2));
        lemma_count_in_update(scopes.drop_last(), si, s2, n);
    }
}

/// A name with no binding anywhere has count zero, and the other way round.
proof fn lemma_scope_count_zero(s: Seq<(String, ShellVariable)>, n: Seq<char>)
    ensures
        (scope_count(s, n) == 0) <==> (scope_find(s, n) is None),
    decreases s.len(),
{
    if s.len() > 0 {
        lemma_scope_count_zero(s.drop_last(), n);
    }
}

/// Stack-wide: count zero exactly when the lookup finds nothing.
proof fn lemma_count_in_zero(scopes: Seq<VarScope>, n: Seq<char>)
    ensures
        (count_in(scopes, n) == 0) <==> (lookup_in(scopes, n) is None),
    decreases scopes.len(),
{
    if scopes.len() > 0 {
        lemma_scope_count_zero(scopes.last()@, n);
        lemma_count_in_zero(scopes.drop_last(), n);
    }
}

/// A lookup that fails means no scope binds the name.
proof fn lemma_lookup_none_everywhere(scopes: Seq<VarScope>, n: Seq<char>)
    requires
        lookup_in(scopes, n) is None,
    ensures
        forall|k: int| 0 <= k < scopes.len() ==> scope_find(#[trigger] scopes[k]@, n) is None,
    decreases scopes.len(),
{
    if scopes.len() > 0 {
        lemma_lookup_none_everywhere(scopes.drop_last(), n);
        assert forall|k: int| 0 <= k < scopes.len() implies scope_find(
            #[trigger] scopes[k]@,
            n,
        ) is None by {
            if k < scopes.len() - 1 {
                assert(scopes.drop_last()[k] == scopes[k]);
            } else {
                assert(scopes[k]@ == scopes.last()@);
            }
        }
    }
}

/// Finds the index of the latest binding of `name` in one scope.
fn find_in_scope(scope: &VarScope, name: &str) -> (r: Option<usize>)
    ensures
        match r {
            Some(i) => {
                &&& i < scope@.len()
                &&& scope@[i as int].0@ == name@
                &&& scope_find(scope@, name@) == Some(scope@[i as int].1)
                &&& forall|j: int| i < j < scope@.len() ==> scope@[j].0@ != name@
            },
            None => scope_find(scope@, name@) is None,
        },
{
    let n = scope.len();
    let mut i = n;
    proof {
        assert(scope@.subrange(0, n as int) =~= scope@);
    }
    loop
        invariant
            i <= n,
            n == scope@.len(),
            scope_find(scope@, name@) == scope_find(scope@.subrange(0, i as int), name@),
            forall|j: int| i <= j < n ==> scope@[j].0@ != name@,
        decreases i,
    {
        if i == 0 {
            proof {
                assert(scope@.subrange(0, 0) =~= Seq::<(String, ShellVariable)>::empty());
            }
            return None;
        }
        let entry = &scope[i - 1];
        if crate::strings::str_eq(entry.0.as_str(), name) {
            proof {
                let pre = scope@.subrange(0, i as int);
                assert(pre.last() == scope@[i - 1]);
            }
            return Some(i - 1);
        }
        proof {
            lemma_scope_find_prefix(scope@, name@, i as int);
        }
        i = i - 1;
    }
}

impl ShellEnvironment {
    /// Finds the scope and entry index the given lookup mode resolves `name`
    /// to.
    fn locate(&self, name: &str, mode: EnvironmentLookup) -> (r: Option<(usize, usize)>)
        requires
            self.wf(),
        ensures
            match r {
                Some(loc) => {
                    &&& loc.0 < self.scopes@.len()
                    &&& loc.1 < self.scopes@[loc.0 as int]@.len()
                    &&& self.scopes@[loc.0 as int]@[loc.1 as int].0@ == name@
                    &&& scope_find(self.scopes@[loc.0 as int]@, name@) == Some(
                        self.scopes@[loc.0 as int]@[loc.1 as int].1,
                    )
                    &&& forall|j: int|
                        loc.1 < j < self.scopes@[loc.0 as int]@.len()
                            ==> self.scopes@[loc.0 as int]@[j].0@ != name@
                    &&& self.spec_mode_find(name@, mode) == Some(
                        self.scopes@[loc.0 as int]@[loc.1 as int].1,
                    )
                    &&& mode is Anywhere ==> forall|k: int|
                        loc.0 < k < self.scopes@.len() ==> scope_find(
                            #[trigger] self.scopes@[k]@,
                            name@,
                        ) is None
                },
                None => self.spec_mode_find(name@, mode) is None,
            },
    {
        match mode {
            EnvironmentLookup::OnlyInGlobal => {
                match find_in_scope(&self.scopes[0], name) {
                    Some(vi) => Some((0, vi)),
                    None => None,
                }
            },
            EnvironmentLookup::OnlyInCurrentScope => {
                let top = self.scopes.len() - 1;
                proof {
                    assert(self.scopes@[top as int]@ == self.scopes@.last()@);
                }
                match find_in_scope(&self.scopes[top], name) {
                    Some(vi) => Some((top, vi)),
                    None => None,
                }
            },
            EnvironmentLookup::Anywhere => {
                let nscopes = self.scopes.len();
                let mut si = nscopes;
                proof {
                    assert(self.scopes@.subrange(0, nscopes as int) =~= self.scopes@);
                }
                loop
                    invariant
                        mode is Anywhere,
                        self.wf(),
                        si <= nscopes,
                        nscopes == self.scopes@.len(),
                        lookup_in(self.scopes@, name@) == lookup_in(
                            self.scopes@.subrange(0, si as int),
                            name@,
                        ),
                        forall|k: int|
                            si <= k < nscopes ==> scope_find(
                                #[trigger] self.scopes@[k]@,
                                name@,
                            ) is None,
                    decreases si,
                {
                    if si == 0 {
                        proof {
                            assert(self.scopes@.subrange(0, 0) =~= Seq::<VarScope>::empty());
                            assert(lookup_in(self.scopes@.subrange(0, 0), name@) is None);
                            assert(self.spec_mode_find(name@, mode) == self.spec_lookup(name@));
                        }
                        return None;
                    }
                    let scope = &self.scopes[si - 1];
                    match find_in_scope(scope, name) {
                        Some(vi) => {
                            proof {
                                let pre = self.scopes@.subrange(0, si as int);
                                assert(pre.last() == self.scopes@[si - 1]);
                                assert(scope_find(pre.last()@, name@) == Some(
                                    self.scopes@[si - 1]@[vi as int].1,
                                ));
                                assert(lookup_in(pre, name@) == Some(
                                    self.scopes@[si - 1]@[vi as int].1,
                                ));
                                assert(self.spec_lookup(name@) == Some(
                                    self.scopes@[si - 1]@[vi as int].1,
                                ));
                                assert(self.spec_mode_find(name@, mode) == self.spec_lookup(
                                    name@,
                                ));
                            }
                            return Some((si - 1, vi));
                        },
                        None => {
                            proof {
                                lemma_lookup_prefix(self.scopes@, name@, si as int);
                            }
                            si = si - 1;
                        },
                    }
                }
            },
        }
    }

    /// Reads the variable `name` resolves to.
    pub fn get(&self, name: &str) -> (r: Option<&ShellVariable>)
        requires
            self.wf(),
        ensures
            match r {
                Some(v) => self.spec_lookup(name@) == Some(*v),
                None => self.spec_lookup(name@) is None,
            },
    {
        match self.locate(name, EnvironmentLookup::Anywhere) {
            Some((si, vi)) => {
                let scope = &self.scopes[si];
                let entry = &scope[vi];
                proof {
                    lemma_lookup_in_update_found(
                        self.scopes@,
                        si as int,
                        self.scopes@[si as int],
                        name@,
                        self.scopes@[si as int]@[vi as int].1,
                    );
                    assert(self.scopes@.update(si as int, self.scopes@[si as int]) =~= self.scopes@);
                }
                Some(&entry.1)
            },
            None => None,
        }
    }

    /// The variable a completed write leaves behind: the requested value, the
    /// prior flags (none for a fresh variable) adjusted per the mutation.
    pub open spec fn spec_updated_var(
        prior: Option<ShellVariable>,
        value: ShellValueLiteral,
        mutation: VariableMutation,
    ) -> ShellVariable {
        let exported0 = match prior {
            Some(v) => v.exported,
            None => false,
        };
        let readonly0 = match prior {
            Some(v) => v.readonly,
            None => false,
        };
        let exported = match mutation {
            VariableMutation::Keep => exported0,
            VariableMutation::Export => true,
            VariableMutation::Unexport => false,
        };
        ShellVariable { value: value.spec_to_value(), exported, readonly: readonly0 }
    }

    /// The unified write primitive: locates the variable per `lookup`,
    /// installs `value` there with the flags adjusted per `mutation`, or
    /// creates the variable in the `target` scope.  Writes to readonly
    /// variables fail and change nothing.
    pub fn update_or_add(
        &mut self,
        name: &str,
        value: ShellValueLiteral,
        mutation: VariableMutation,
        lookup: EnvironmentLookup,
        target: EnvironmentScope,
    ) -> (r: Result<(), Error>)
        requires
            old(self).wf(),
        ensures
            final(self).wf(),
            final(self).spec_depth() == old(self).spec_depth(),
            forall|n: Seq<char>|
                n != name@ ==> final(self).spec_lookup(n) == old(self).spec_lookup(n),
            match r {
                Ok(_) => {
                    &&& !(old(self).spec_mode_find(name@, lookup) matches Some(p) && p.readonly)
                    &&& final(self).spec_count(name@) == old(self).spec_count(name@) + (
                    if old(self).spec_mode_find(name@, lookup) is Some {
                        0int
                    } else {
                        1int
                    })
                    &&& lookup is Anywhere ==> final(self).spec_lookup(name@) == Some(
                        Self::spec_updated_var(old(self).spec_lookup(name@), value, mutation),
                    )
                },
                Err(e) => {
                    &&& old(self).spec_mode_find(name@, lookup) matches Some(p) && p.readonly
                    &&& e.kind matches ErrorKind::ReadOnlyVariable(t) && t@ == name@
                    &&& forall|n: Seq<char>| final(self).spec_lookup(n) == old(self).spec_lookup(n)
                    &&& forall|n: Seq<char>| final(self).spec_count(n) == old(self).spec_count(n)
                },
            },
    {
        let ghost scopes0 = self.scopes@;
        match self.locate(name, lookup) {
            Some((si, vi)) => {
                let mut scope = self.scopes.remove(si);
                let ghost sold = scope@;
                let (nm, prior) = scope.remove(vi);
                if prior.readonly {
                    scope.insert(vi, (nm, prior));
                    self.scopes.insert(si, scope);
                    proof {
                        assert(sold.remove(vi as int).insert(vi as int, sold[vi as int]) =~= sold);
                        assert(self.scopes@ =~= scopes0.update(si as int, self.scopes@[si as int]));
                        assert(self.scopes@[si as int]@ =~= sold);
                        assert forall|n: Seq<char>| lookup_in(self.scopes@, n) == lookup_in(
                            scopes0,
                            n,
                        ) && count_in(self.scopes@, n) == count_in(scopes0, n) by {
                            lemma_lookup_in_update(scopes0, si as int, self.scopes@[si as int], n);
                        }
                    }
                    return Err(Error::new(ErrorKind::ReadOnlyVariable(String::from_str(name))));
                }
                let exported = match mutation {
                    VariableMutation::Keep => prior.exported,
                    VariableMutation::Export => true,
                    VariableMutation::Unexport => false,
                };
                let var2 = ShellVariable { value: value.to_value(), exported, readonly: false };
                let ghost e2 = (nm, var2);
                scope.insert(vi, (nm, var2));
                self.scopes.insert(si, scope);
                proof {
                    let snew = sold.update(vi as int, e2);
                    assert(sold.remove(vi as int).insert(vi as int, e2) =~= snew);
                    assert(self.scopes@ =~= scopes0.update(si as int, self.scopes@[si as int]));
                    assert(self.scopes@[si as int]@ =~= snew);
                    lemma_scope_update_found(sold, vi as int, e2);
                    lemma_scope_update_same_name(sold, vi as int, e2, name@);
                    assert forall|n: Seq<char>| n != name@ implies lookup_in(self.scopes@, n)
                        == lookup_in(scopes0, n) by {
                        lemma_scope_update_same_name(sold, vi as int, e2, n);
                        lemma_lookup_in_update(scopes0, si as int, self.scopes@[si as int], n);
                    }
                    lemma_count_in_update(scopes0, si as int, self.scopes@[si as int], name@);
                    if lookup is Anywhere {
                        lemma_lookup_in_update_found(
                            scopes0,
                            si as int,
                            self.scopes@[si as int],
                            name@,
                            var2,
                        );
                    }
                }
                Ok(())
            },
            None => {
                let ts: usize = match target {
                    EnvironmentScope::Global => 0,
                    EnvironmentScope::Current => self.scopes.len() - 1,
                };
                let exported = match mutation {
                    VariableMutation::Keep => false,
                    VariableMutation::Export => true,
                    VariableMutation::Unexport => false,
                };
                let var2 = ShellVariable { value: value.to_value(), exported, readonly: false };
                let nm = String::from_str(name);
                let ghost e2 = (nm, var2);
                let mut scope = self.scopes.remove(ts);
                let ghost sold = scope@;
                scope.push((nm, var2));
                self.scopes.insert(ts, scope);
                proof {
                    let snew = sold.push(e2);
                    assert(self.scopes@ =~= scopes0.update(ts as int, self.scopes@[ts as int]));
                    assert(self.scopes@[ts as int]@ =~= snew);
                    lemma_scope_push(sold, e2, name@);
                    assert forall|n: Seq<char>| n != name@ implies lookup_in(self.scopes@, n)
                        == lookup_in(scopes0, n) by {
                        lemma_scope_push(sold, e2, n);
                        lemma_lookup_in_update(scopes0, ts as int, self.scopes@[ts as int], n);
                    }
                    lemma_count_in_update(scopes0, ts as int, self.scopes@[ts as int], name@);
                    if lookup is Anywhere {
                        lemma_lookup_none_everywhere(scopes0, name@);
                        lemma_lookup_in_update_found(
                            scopes0,
                            ts as int,
                            self.scopes@[ts as int],
                            name@,
                            var2,
                        );
                    }
                }
                Ok(())
            },
        }
    }

    /// Removes the binding `name` resolves to.  Removing a readonly variable
    /// is refused.  Returns whether a binding was removed.
    pub fn unset(&mut self, name: &str) -> (r: Result<bool, Error>)
        requires
            old(self).wf(),
        ensures
            final(self).wf(),
            final(self).spec_depth() == old(self).spec_depth(),
            forall|n: Seq<char>|
                n != name@ ==> final(self).spec_lookup(n) == old(self).spec_lookup(n),
            forall|n: Seq<char>|
                n != name@ ==> final(self).spec_count(n) == old(self).spec_count(n),
            match r {
                Ok(removed) => {
                    &&& removed == (old(self).spec_lookup(name@) is Some)
                    &&& !(old(self).spec_lookup(name@) matches Some(p) && p.readonly)
                    &&& removed ==> final(self).spec_count(name@) + 1 == old(self).spec_count(
                        name@,
                    )
                    &&& !removed ==> final(self).scopes@ =~= old(self).scopes@
                    &&& (old(self).spec_count(name@) <= 1 ==> final(self).spec_lookup(
                        name@,
                    ) is None)
                },
                Err(e) => {
                    &&& old(self).spec_lookup(name@) matches Some(p) && p.readonly
                    &&& e.kind matches ErrorKind::ReadOnlyVariable(t) && t@ == name@
                    &&& forall|n: Seq<char>| final(self).spec_lookup(n) == old(self).spec_lookup(n)
                    &&& forall|n: Seq<char>| final(self).spec_count(n) == old(self).spec_count(n)
                },
            },
    {
        let ghost scopes0 = self.scopes@;
        match self.locate(name, EnvironmentLookup::Anywhere) {
            Some((si, vi)) => {
                let mut scope = self.scopes.remove(si);
                let ghost sold = scope@;
                let (nm, prior) = scope.remove(vi);
                if prior.readonly {
                    scope.insert(vi, (nm, prior));
                    self.scopes.insert(si, scope);
                    proof {
                        assert(sold.remove(vi as int).insert(vi as int, sold[vi as int]) =~= sold);
                        assert(self.scopes@ =~= scopes0.update(si as int, self.scopes@[si as int]));
                        assert(self.scopes@[si as int]@ =~= sold);
                        assert forall|n: Seq<char>| lookup_in(self.scopes@, n) == lookup_in(
                            scopes0,
                            n,
                        ) && count_in(self.scopes@, n) == count_in(scopes0, n) by {
                            lemma_lookup_in_update(scopes0, si as int, self.scopes@[si as int], n);
                        }
                    }
                    return Err(Error::new(ErrorKind::ReadOnlyVariable(String::from_str(name))));
                }
                self.scopes.insert(si, scope);
                proof {
                    let snew = sold.remove(vi as int);
                    assert(self.scopes@ =~= scopes0.update(si as int, self.scopes@[si as int]));
                    assert(self.scopes@[si as int]@ =~= snew);
                    lemma_scope_remove(sold, vi as int, name@);
                    assert forall|n: Seq<char>| n != name@ implies lookup_in(self.scopes@, n)
                        == lookup_in(scopes0, n) && count_in(self.scopes@, n) == count_in(
                        scopes0,
                        n,
                    ) by {
                        lemma_scope_remove(sold, vi as int, n);
                        lemma_lookup_in_update(scopes0, si as int, self.scopes@[si as int], n);
                    }
                    lemma_count_in_update(scopes0, si as int, self.scopes@[si as int], name@);
                    lemma_count_in_zero(scopes0, name@);
                    lemma_count_in_zero(self.scopes@, name@);
                }
                Ok(true)
            },
            None => {
                proof {
                    lemma_count_in_zero(scopes0, name@);
                }
                Ok(false)
            },
        }
    }

    /// Sets or clears the exported flag of the variable `name` resolves to.
    /// Returns whether the variable was found.
    pub fn set_exported(&mut self, name: &str, exported: bool) -> (found: bool)
        requires
            old(self).wf(),
        ensures
            final(self).wf(),
            final(self).spec_depth() == old(self).spec_depth(),
            forall|n: Seq<char>|
                n != name@ ==> final(self).spec_lookup(n) == old(self).spec_lookup(n),
            found == (old(self).spec_lookup(name@) is Some),
            !found ==> final(self).scopes@ =~= old(self).scopes@,
            found ==> (final(self).spec_lookup(name@) matches Some(v) && (old(self).spec_lookup(
                name@,
            ) matches Some(p) && v == (ShellVariable { exported, ..p }))),
    {
        let ghost scopes0 = self.scopes@;
        match self.locate(name, EnvironmentLookup::Anywhere) {
            Some((si, vi)) => {
                let mut scope = self.scopes.remove(si);
                let ghost sold = scope@;
                let (nm, mut prior) = scope.remove(vi);
                if exported {
                    prior.export();
                } else {
                    prior.unexport();
                }
                let ghost e2 = (nm, prior);
                scope.insert(vi, (nm, prior));
                self.scopes.insert(si, scope);
                proof {
                    let snew = sold.update(vi as int, e2);
                    assert(sold.remove(vi as int).insert(vi as int, e2) =~= snew);
                    assert(self.scopes@ =~= scopes0.update(si as int, self.scopes@[si as int]));
                    assert(self.scopes@[si as int]@ =~= snew);
                    lemma_scope_update_found(sold, vi as int, e2);
                    lemma_scope_update_same_name(sold, vi as int, e2, name@);
                    assert forall|n: Seq<char>| n != name@ implies lookup_in(self.scopes@, n)
                        == lookup_in(scopes0, n) by {
                        lemma_scope_update_same_name(sold, vi as int, e2, n);
                        lemma_lookup_in_update(scopes0, si as int, self.scopes@[si as int], n);
                    }
                    lemma_lookup_in_update_found(
                        scopes0,
                        si as int,
                        self.scopes@[si as int],
                        name@,
                        e2.1,
                    );
                }
                true
            },
            None => false,
        }
    }
}

/// One entry of the exported view: the name resolves to an exported variable
/// whose scalar value is the entry's value.
/// Whether the listing holds an entry under this name.
pub open spec fn entries_have_name(s: Seq<(String, Option<String>)>, n: Seq<char>) -> bool {
    exists|j: int| 0 <= j < s.len() && (#[trigger] s[j].0@) == n
}

/// A name that resolves to an exported variable of any kind.
pub open spec fn spec_exported_name(env: ShellEnvironment, n: Seq<char>) -> bool {
    env.spec_lookup(n) matches Some(var) && var.exported
}

/// A name that resolves to an exported scalar variable.
pub open spec fn spec_exported_scalar_name(env: ShellEnvironment, n: Seq<char>) -> bool {
    env.spec_lookup(n) matches Some(var) && var.exported && var.value is Scalar
}

/// A scope that binds `name` holds an entry under it.
proof fn lemma_scope_find_some_has_binding(s: Seq<(String, ShellVariable)>, n: Seq<char>)
    requires
        scope_find(s, n) is Some,
    ensures
        exists|vi: int| 0 <= vi < s.len() && (#[trigger] s[vi]).0@ == n,
    decreases s.len(),
{
    if s.last().0@ == n {
        assert(s[s.len() - 1].0@ == n);
    } else {
        lemma_scope_find_some_has_binding(s.drop_last(), n);
        let vi = choose|vi: int| 0 <= vi < s.drop_last().len() && (#[trigger] s.drop_last()[vi]).0@
            == n;
        assert(s[vi].0@ == n);
    }
}

/// A name the stack resolves is bound somewhere on the stack.
proof fn lemma_lookup_some_has_binding(scopes: Seq<VarScope>, n: Seq<char>)
    requires
        lookup_in(scopes, n) is Some,
    ensures
        exists|si: int, vi: int|
            0 <= si < scopes.len() && 0 <= vi < scopes[si]@.len() && (#[trigger] scopes[si]@[vi]).0@
                == n,
    decreases scopes.len(),
{
    if scope_find(scopes.last()@, n) is Some {
        lemma_scope_find_some_has_binding(scopes.last()@, n);
        let vi = choose|vi: int|
            0 <= vi < scopes.last()@.len() && (#[trigger] scopes.last()@[vi]).0@ == n;
        assert((scopes[scopes.len() - 1]@[vi]).0@ == n);
    } else {
        lemma_lookup_some_has_binding(scopes.drop_last(), n);
        let (si, vi) = choose|si: int, vi: int|
            0 <= si < scopes.drop_last().len() && 0 <= vi < scopes.drop_last()[si]@.len() && (
            #[trigger] scopes.drop_last()[si]@[vi]).0@ == n;
        assert(scopes.drop_last()[si] == scopes[si]);
        assert((scopes[si]@[vi]).0@ == n);
    }
}

/// A name present in a listing stays present when every old entry survives.
proof fn lemma_entries_names_preserved(
    pre: Seq<(String, Option<String>)>,
    post: Seq<(String, Option<String>)>,
    m: Seq<char>,
)
    requires
        entries_have_name(pre, m),
        forall|j: int| 0 <= j < pre.len() ==> post.contains(#[trigger] pre[j]),
    ensures
        entries_have_name(post, m),
{
    let j = choose|j: int| 0 <= j < pre.len() && (#[trigger] pre[j].0@) == m;
    assert(post.contains(pre[j]));
    let k = choose|k: int| 0 <= k < post.len() && post[k] == pre[j];
    assert((post[k]).0@ == m);
}

/// One entry of the exported listing: the name resolves to an exported
/// variable; a `Some` value carries a scalar's text, a `None` marks an
/// exported variable with no scalar rendering (an array).
pub open spec fn spec_exported_entry(env: ShellEnvironment, e: (String, Option<String>)) -> bool {
    env.spec_lookup(e.0@) matches Some(var) && var.exported && (match e.1 {
        Some(s) => var.value matches ShellValue::Scalar(t) && t@ == s@,
        None => !(var.value is Scalar),
    })
}

/// One entry of the exported environment map handed to a spawned child: the
/// name resolves to an exported scalar holding the entry's value.
pub open spec fn spec_exported_env_entry(env: ShellEnvironment, e: (String, String)) -> bool {
    env.spec_lookup(e.0@) matches Some(var) && var.exported && (
    var.value matches ShellValue::Scalar(s) && s@ == e.1@)
}

/// Entries in strictly increasing name order.
pub open spec fn entries_sorted(s: Seq<(String, Option<String>)>) -> bool {
    forall|i: int, j: int|
        0 <= i < j < s.len() ==> crate::strings::lex_le(#[trigger] s[i].0@, #[trigger] s[j].0@)
            && s[i].0@ != s[j].0@
}

/// Whether some entry already carries this name.
fn entries_contain_name(entries: &Vec<(String, Option<String>)>, name: &str) -> (r: bool)
    ensures
        r == exists|j: int| 0 <= j < entries@.len() && (#[trigger] entries@[j].0@) == name@,
{
    let n = entries.len();
    let mut i: usize = 0;
    while i < n
        invariant
            i <= n,
            n == entries@.len(),
            forall|j: int| 0 <= j < i ==> (#[trigger] entries@[j].0@) != name@,
        decreases n - i,
    {
        if crate::strings::str_eq(entries[i].0.as_str(), name) {
            return true;
        }
        i = i + 1;
    }
    false
}

/// The position a fresh name belongs at in a sorted entry list.
fn find_insert_pos(entries: &Vec<(String, Option<String>)>, name: &str) -> (i: usize)
    ensures
        i <= entries@.len(),
        forall|j: int| 0 <= j < i ==> crate::strings::lex_lt(#[trigger] entries@[j].0@, name@),
        i < entries@.len() ==> !crate::strings::lex_lt(entries@[i as int].0@, name@),
{
    let n = entries.len();
    let mut i: usize = 0;
    while i < n
        invariant
            i <= n,
            n == entries@.len(),
            forall|j: int| 0 <= j < i ==> crate::strings::lex_lt(#[trigger] entries@[j].0@, name@),
        decreases n - i,
    {
        if !crate::strings::str_lt(entries[i].0.as_str(), name) {
            return i;
        }
        i = i + 1;
    }
    i
}

/// Inserts an entry with a fresh name at its sorted position.
fn insert_entry_sorted(
    entries: &mut Vec<(String, Option<String>)>,
    name: String,
    value: Option<String>,
)
    requires
        entries_sorted(old(entries)@),
        forall|j: int| 0 <= j < old(entries)@.len() ==> (#[trigger] old(entries)@[j].0@) != name@,
    ensures
        entries_sorted(final(entries)@),
        final(entries)@.len() == old(entries)@.len() + 1,
        forall|j: int|
            0 <= j < final(entries)@.len() ==> (#[trigger] final(entries)@[j]) == (name, value)
                || old(entries)@.contains(final(entries)@[j]),
        forall|j: int|
            0 <= j < old(entries)@.len() ==> final(entries)@.contains(#[trigger] old(entries)@[j]),
        entries_have_name(final(entries)@, name@),
{
    let i = find_insert_pos(entries, name.as_str());
    let ghost pre = entries@;
    let ghost nview = name@;
    proof {
        if (i as int) < pre.len() {
            crate::strings::lemma_lex_le_total(pre[i as int].0@, nview);
            assert(crate::strings::lex_le(nview, pre[i as int].0@));
        }
    }
    entries.insert(i, (name, value));
    proof {
        let post = entries@;
        let iv = i as int;
        assert forall|p: int, q: int| 0 <= p < q < post.len() implies crate::strings::lex_le(
            #[trigger] post[p].0@,
            #[trigger] post[q].0@,
        ) && post[p].0@ != post[q].0@ by {
            if p < iv && q == iv {
                assert(post[p] == pre[p]);
            } else if p == iv && q > iv {
                assert(post[q] == pre[q - 1]);
                if q - 1 > iv {
                    crate::strings::lemma_lex_le_trans(nview, pre[iv].0@, pre[q - 1].0@);
                }
            } else if p < iv && q > iv {
                assert(post[p] == pre[p]);
                assert(post[q] == pre[q - 1]);
                if p == q - 1 {
                } else {
                }
            } else if p > iv {
                assert(post[p] == pre[p - 1]);
                assert(post[q] == pre[q - 1]);
            }
        }
        assert forall|j: int| 0 <= j < post.len() implies (#[trigger] post[j]) == (name, value)
            || pre.contains(post[j]) by {
            if j < iv {
                assert(post[j] == pre[j]);
                assert(pre.contains(post[j]));
            } else if j > iv {
                assert(post[j] == pre[j - 1]);
                assert(pre.contains(post[j]));
            }
        }
        assert forall|j: int| 0 <= j < pre.len() implies post.contains(#[trigger] pre[j]) by {
            if j < iv {
                assert(post[j] == pre[j]);
            } else {
                assert(post[j + 1] == pre[j]);
            }
        }
        assert((post[iv]).0@ == nview);
    }
}

impl ShellEnvironment {
    /// The exported listing: one entry per name that resolves to an exported
    /// variable — no more (each entry is such a variable) and no fewer
    /// (every exported name appears) — with the names unique and sorted.  A
    /// scalar's entry carries its text; an array's entry carries no value.
    pub fn exported_vars(&self) -> (r: Vec<(String, Option<String>)>)
        requires
            self.wf(),
        ensures
            entries_sorted(r@),
            forall|j: int| 0 <= j < r@.len() ==> spec_exported_entry(*self, #[trigger] r@[j]),
            forall|n: Seq<char>| spec_exported_name(*self, n) ==> entries_have_name(r@, n),
    {
        let mut out: Vec<(String, Option<String>)> = Vec::new();
        let nscopes = self.scopes.len();
        let mut si: usize = 0;
        while si < nscopes
            invariant
                self.wf(),
                si <= nscopes,
                nscopes == self.scopes@.len(),
                entries_sorted(out@),
                forall|j: int| 0 <= j < out@.len() ==> spec_exported_entry(*self, #[trigger] out@[j]),
                forall|sj: int, vj: int|
                    0 <= sj < si && 0 <= vj < self.scopes@[sj]@.len()
                        && spec_exported_name(*self, (#[trigger] self.scopes@[sj]@[vj]).0@)
                        ==> entries_have_name(out@, self.scopes@[sj]@[vj].0@),
            decreases nscopes - si,
        {
            let scope_len = self.scopes[si].len();
            let mut vi: usize = 0;
            while vi < scope_len
                invariant
                    self.wf(),
                    si < self.scopes@.len(),
                    vi <= scope_len,
                    scope_len == self.scopes@[si as int]@.len(),
                    entries_sorted(out@),
                    forall|j: int|
                        0 <= j < out@.len() ==> spec_exported_entry(*self, #[trigger] out@[j]),
                    forall|sj: int, vj: int|
                        0 <= sj < si && 0 <= vj < self.scopes@[sj]@.len()
                            && spec_exported_name(
                            *self,
                            (#[trigger] self.scopes@[sj]@[vj]).0@,
                        ) ==> entries_have_name(out@, self.scopes@[sj]@[vj].0@),
                    forall|vj: int|
                        0 <= vj < vi && spec_exported_name(
                            *self,
                            (#[trigger] self.scopes@[si as int]@[vj]).0@,
                        ) ==> entries_have_name(out@, self.scopes@[si as int]@[vj].0@),
                decreases scope_len - vi,
            {
                let ghost out_pre = out@;
                let scope = &self.scopes[si];
                let entry = &scope[vi];
                let ghost nview = entry.0@;
                let already = entries_contain_name(&out, entry.0.as_str());
                if !already {
                    match self.get(entry.0.as_str()) {
                        Some(var) => {
                            if var.is_exported() {
                                let value = var.try_get_scalar();
                                let nm = entry.0.clone();
                                insert_entry_sorted(&mut out, nm, value);
                            }
                        },
                        None => {},
                    }
                }
                proof {
                    assert forall|vj: int|
                        0 <= vj < vi + 1 && spec_exported_name(
                            *self,
                            (#[trigger] self.scopes@[si as int]@[vj]).0@,
                        ) implies entries_have_name(out@, self.scopes@[si as int]@[vj].0@) by {
                        let m = self.scopes@[si as int]@[vj].0@;
                        if vj == vi as int {
                            if already {
                                if out@ == out_pre {
                                } else {
                                    lemma_entries_names_preserved(out_pre, out@, m);
                                }
                            } else {
                                assert(entries_have_name(out@, nview));
                            }
                        } else {
                            if out@ == out_pre {
                            } else {
                                lemma_entries_names_preserved(out_pre, out@, m);
                            }
                        }
                    }
                    assert forall|sj: int, vj: int|
                        0 <= sj < si && 0 <= vj < self.scopes@[sj]@.len()
                            && spec_exported_name(
                            *self,
                            (#[trigger] self.scopes@[sj]@[vj]).0@,
                        ) implies entries_have_name(out@, self.scopes@[sj]@[vj].0@) by {
                        let m = self.scopes@[sj]@[vj].0@;
                        if out@ == out_pre {
                        } else {
                            lemma_entries_names_preserved(out_pre, out@, m);
                        }
                    }
                }
                vi = vi + 1;
            }
            si = si + 1;
        }
        proof {
            assert forall|n: Seq<char>| spec_exported_name(*self, n) implies entries_have_name(
                out@,
                n,
            ) by {
                lemma_lookup_some_has_binding(self.scopes@, n);
                let (sj, vj) = choose|sj: int, vj: int|
                    0 <= sj < self.scopes@.len() && 0 <= vj < self.scopes@[sj]@.len() && (
                    #[trigger] self.scopes@[sj]@[vj]).0@ == n;
                assert(spec_exported_name(*self, self.scopes@[sj]@[vj].0@));
            }
        }
        out
    }

    /// The exported environment map handed to a spawned child: one entry per
    /// name resolving to an exported scalar, carrying its value.  Exported
    /// arrays are omitted, as a child's environment holds only strings.
    pub fn exported_env(&self) -> (r: Vec<(String, String)>)
        requires
            self.wf(),
        ensures
            forall|j: int|
                0 <= j < r@.len() ==> spec_exported_env_entry(*self, #[trigger] r@[j]),
            forall|n: Seq<char>|
                spec_exported_scalar_name(*self, n) ==> exists|j: int|
                    0 <= j < r@.len() && (#[trigger] r@[j].0@) == n,
    {
        let listing = self.exported_vars();
        let n = listing.len();
        let mut out: Vec<(String, String)> = Vec::new();
        let mut i: usize = 0;
        while i < n
            invariant
                i <= n,
                n == listing@.len(),
                self.wf(),
                forall|j: int|
                    0 <= j < listing@.len() ==> spec_exported_entry(
                        *self,
                        #[trigger] listing@[j],
                    ),
                forall|j: int|
                    0 <= j < out@.len() ==> spec_exported_env_entry(*self, #[trigger] out@[j]),
                forall|j: int|
                    0 <= j < i && (#[trigger] listing@[j]).1 is Some ==> exists|p: int|
                        0 <= p < out@.len() && (#[trigger] out@[p].0@) == listing@[j].0@,
            decreases n - i,
        {
            let ghost pre = out@;
            match &listing[i].1 {
                Some(value) => {
                    out.push((listing[i].0.clone(), value.clone()));
                    proof {
                        assert(out@.drop_last() =~= pre);
                        assert(out@.last().0@ == listing@[i as int].0@);
                    }
                },
                None => {},
            }
            proof {
                assert forall|j: int|
                    0 <= j < i + 1 && (#[trigger] listing@[j]).1 is Some implies exists|p: int|
                        0 <= p < out@.len() && (#[trigger] out@[p].0@) == listing@[j].0@ by {
                    if j < i {
                        let p = choose|p: int|
                            0 <= p < pre.len() && (#[trigger] pre[p].0@) == listing@[j].0@;
                        assert(out@[p].0@ == listing@[j].0@);
                    } else {
                        assert(out@[out@.len() - 1].0@ == listing@[j].0@);
                    }
                }
            }
            i = i + 1;
        }
        proof {
            assert forall|m: Seq<char>| spec_exported_scalar_name(*self, m) implies exists|
                j: int,
            |
                0 <= j < out@.len() && (#[trigger] out@[j].0@) == m by {
                assert(spec_exported_name(*self, m));
                assert(entries_have_name(listing@, m));
                let k = choose|k: int|
                    0 <= k < listing@.len() && (#[trigger] listing@[k].0@) == m;
                assert(spec_exported_entry(*self, listing@[k]));
                assert(listing@[k].1 is Some);
            }
        }
        out
    }
}

/// Two optional variables that resolve identically.
pub open spec fn spec_opt_var_obs_eq(a: Option<ShellVariable>, b: Option<ShellVariable>) -> bool {
    match (a, b) {
        (Some(x), Some(y)) => crate::variables::spec_var_obs_eq(x, y),
        (None, None) => true,
        _ => false,
    }
}

/// Scopes whose entries line up: same names, observably equal variables.
pub open spec fn spec_scope_obs_eq(
    a: Seq<(String, ShellVariable)>,
    b: Seq<(String, ShellVariable)>,
) -> bool {
    a.len() == b.len() && forall|i: int|
        0 <= i < a.len() ==> (#[trigger] a[i]).0@ == b[i].0@ && crate::variables::spec_var_obs_eq(
            a[i].1,
            b[i].1,
        )
}

/// Observably equal scopes bind every name to observably equal variables.
proof fn lemma_scope_find_obs_eq(
    a: Seq<(String, ShellVariable)>,
    b: Seq<(String, ShellVariable)>,
    n: Seq<char>,
)
    requires
        spec_scope_obs_eq(a, b),
    ensures
        spec_opt_var_obs_eq(scope_find(a, n), scope_find(b, n)),
    decreases a.len(),
{
    if a.len() > 0 {
        assert(a.drop_last().len() == b.drop_last().len());
        assert forall|i: int| 0 <= i < a.drop_last().len() implies (
        #[trigger] a.drop_last()[i]).0@ == b.drop_last()[i].0@
            && crate::variables::spec_var_obs_eq(a.drop_last()[i].1, b.drop_last()[i].1) by {
            assert(a.drop_last()[i] == a[i]);
            assert(b.drop_last()[i] == b[i]);
        }
        lemma_scope_find_obs_eq(a.drop_last(), b.drop_last(), n);
        assert(a.last() == a[a.len() - 1]);
        assert(b.last() == b[a.len() - 1]);
    }
}

/// Observably equal stacks resolve every name to observably equal variables.
proof fn lemma_lookup_obs_eq(a: Seq<VarScope>, b: Seq<VarScope>, n: Seq<char>)
    requires
        a.len() == b.len(),
        forall|i: int| 0 <= i < a.len() ==> spec_scope_obs_eq((#[trigger] a[i])@, b[i]@),
    ensures
        spec_opt_var_obs_eq(lookup_in(a, n), lookup_in(b, n)),
    decreases a.len(),
{
    if a.len() > 0 {
        assert(a.last() == a[a.len() - 1]);
        assert(b.last() == b[a.len() - 1]);
        lemma_scope_find_obs_eq(a.last()@, b.last()@, n);
        assert forall|i: int| 0 <= i < a.drop_last().len() implies spec_scope_obs_eq(
            (#[trigger] a.drop_last()[i])@,
            b.drop_last()[i]@,
        ) by {
            assert(a.drop_last()[i] == a[i]);
            assert(b.drop_last()[i] == b[i]);
        }
        lemma_lookup_obs_eq(a.drop_last(), b.drop_last(), n);
    }
}

impl ShellEnvironment {
    /// A structural copy with freshly allocated strings, as a subshell's
    /// starting state: it resolves every name to an observably equal
    /// variable.
    pub fn deep_clone(&self) -> (r: ShellEnvironment)
        requires
            self.wf(),
        ensures
            r.wf(),
            r.spec_depth() == self.spec_depth(),
            forall|n: Seq<char>| spec_opt_var_obs_eq(r.spec_lookup(n), self.spec_lookup(n)),
    {
        let n = self.scopes.len();
        let mut scopes: Vec<VarScope> = Vec::new();
        let mut si: usize = 0;
        while si < n
            invariant
                si <= n,
                n == self.scopes@.len(),
                scopes@.len() == si,
                forall|k: int|
                    0 <= k < si ==> spec_scope_obs_eq(
                        (#[trigger] scopes@[k])@,
                        self.scopes@[k]@,
                    ),
            decreases n - si,
        {
            let source = &self.scopes[si];
            let m = source.len();
            let mut copy: VarScope = Vec::new();
            let mut vi: usize = 0;
            while vi < m
                invariant
                    vi <= m,
                    m == source@.len(),
                    copy@.len() == vi,
                    forall|k: int|
                        0 <= k < vi ==> (#[trigger] copy@[k]).0@ == source@[k].0@
                            && crate::variables::spec_var_obs_eq(copy@[k].1, source@[k].1),
                decreases m - vi,
            {
                let entry = &source[vi];
                copy.push((entry.0.clone(), crate::variables::clone_variable(&entry.1)));
                vi = vi + 1;
            }
            scopes.push(copy);
            si = si + 1;
        }
        let r = ShellEnvironment { scopes };
        proof {
            assert forall|m2: Seq<char>| spec_opt_var_obs_eq(
                r.spec_lookup(m2),
                self.spec_lookup(m2),
            ) by {
                lemma_lookup_obs_eq(r.scopes@, self.scopes@, m2);
            }
        }
        r
    }
}

/// Setting a variable that was not present and then unsetting it restores
/// every lookup: observationally, the environment is the pre-existing one.
/// The hypotheses are exactly what `update_or_add` guarantees when it creates
/// the variable and what `unset` guarantees when it removes it.
pub proof fn lemma_set_then_unset_restores(
    e0: ShellEnvironment,
    e1: ShellEnvironment,
    e2: ShellEnvironment,
    name: Seq<char>,
)
    requires
        e0.wf(),
        e0.spec_lookup(name) is None,
        e1.spec_depth() == e0.spec_depth(),
        forall|n: Seq<char>| n != name ==> e1.spec_lookup(n) == e0.spec_lookup(n),
        e1.spec_count(name) == e0.spec_count(name) + 1,
        e2.spec_depth() == e1.spec_depth(),
        forall|n: Seq<char>| n != name ==> e2.spec_lookup(n) == e1.spec_lookup(n),
        e2.spec_count(name) + 1 == e1.spec_count(name),
    ensures
        e2.spec_depth() == e0.spec_depth(),
        forall|n: Seq<char>| e2.spec_lookup(n) == e0.spec_lookup(n),
{
    lemma_count_in_zero(e0.scopes@, name);
    lemma_count_in_zero(e2.scopes@, name);
}

} // verus!
