//! The chain of lexical scopes the interpreter evaluates against.
//!
//! All scopes live in one arena and refer to their enclosing scope by index,
//! so a child scope shares its parent by reference rather than copying it:
//! bindings introduced into an ancestor scope later, and mutations of
//! existing bindings, remain visible to every closure that captured that
//! ancestor.  A scope index stays valid for the lifetime of the arena.
//!
//! Bindings are kept in one flat list; a name is resolved by walking the
//! scope chain from the innermost scope outward and, within each scope,
//! taking the binding added last.

use vstd::prelude::*;

use crate::value::{KoxValue, KoxValueV};

verus! {

/// One binding: a name bound to a value inside the scope with this index.
#[derive(Debug)]
pub struct Binding {
    pub scope: usize,
    pub name: String,
    pub value: KoxValue,
}

/// The mathematical value of a binding.
pub struct BindingV {
    pub scope: usize,
    pub name: Seq<char>,
    pub value: KoxValueV,
}

impl View for Binding {
    type V = BindingV;

    open spec fn view(&self) -> BindingV {
        BindingV { scope: self.scope, name: self.name@, value: self.value@ }
    }
}

/// The mathematical value of the whole scope arena.
pub struct EnvV {
    /// For each scope, the index of its enclosing scope, if any.
    pub parents: Seq<Option<usize>>,
    /// All bindings of all scopes, in the order they were made.
    pub bindings: Seq<BindingV>,
}

/// The index of the binding for `name` in scope `scope`, if any: the last
/// one added wins.
pub open spec fn find_binding(bs: Seq<BindingV>, scope: usize, name: Seq<char>) -> Option<int>
    decreases bs.len(),
{
    if bs.len() == 0 {
        None
    } else if bs.last().scope == scope && bs.last().name == name {
        Some(bs.len() - 1)
    } else {
        find_binding(bs.drop_last(), scope, name)
    }
}

/// A found binding index is in range and matches the scope and name sought.
pub proof fn find_binding_ok(bs: Seq<BindingV>, scope: usize, name: Seq<char>)
    ensures
        match find_binding(bs, scope, name) {
            Some(i) => 0 <= i < bs.len() && bs[i].scope == scope && bs[i].name == name,
            None => true,
        },
    decreases bs.len(),
{
    if bs.len() > 0 {
        find_binding_ok(bs.drop_last(), scope, name);
    }
}

/// The nearest scope, walking from `scope` outward along the parent links,
/// that holds a binding for `name`.
pub open spec fn resolve(e: EnvV, scope: int, name: Seq<char>) -> Option<int>
    decreases scope,
{
    if 0 <= scope < e.parents.len() {
        if find_binding(e.bindings, scope as usize, name) is Some {
            Some(scope)
        } else {
            match e.parents[scope] {
                Some(p) => if p < scope {
                    resolve(e, p as int, name)
                } else {
                    None
                },
                None => None,
            }
        }
    } else {
        None
    }
}

/// The value bound to `name` as seen from `scope`: the binding in the
/// nearest enclosing scope that defines it.
pub open spec fn lookup(e: EnvV, scope: int, name: Seq<char>) -> Option<KoxValueV> {
    match resolve(e, scope, name) {
        Some(s) => match find_binding(e.bindings, s as usize, name) {
            Some(i) => Some(e.bindings[i].value),
            None => None,
        },
        None => None,
    }
}

/// Well-formedness of the arena: there is a global scope, every parent link
/// points to an earlier scope (so chains are finite and acyclic), and every
/// binding belongs to a scope that exists.
pub open spec fn env_wf(e: EnvV) -> bool {
    &&& e.parents.len() > 0
    &&& forall|i: int|
        0 <= i < e.parents.len() ==> match #[trigger] e.parents[i] {
            Some(p) => p < i,
            None => true,
        }
    &&& forall|j: int| 0 <= j < e.bindings.len() ==> (#[trigger] e.bindings[j]).scope < e.parents.len()
}

/// Whether every scope index a value carries (the captured scope of a
/// function, also inside a return signal) points at one of the first `n`
/// scopes.
pub open spec fn value_scopes_ok(v: KoxValueV, n: int) -> bool
    decreases v,
{
    match v {
        KoxValueV::KoxFunction { closure, .. } => closure < n,
        KoxValueV::Return(inner) => value_scopes_ok(*inner, n),
        _ => true,
    }
}

/// Whether every value stored in the arena carries only scope indices that
/// exist.
pub open spec fn env_values_ok(e: EnvV) -> bool {
    forall|j: int|
        0 <= j < e.bindings.len() ==> value_scopes_ok(
            (#[trigger] e.bindings[j]).value,
            e.parents.len() as int,
        )
}

/// A value whose scope indices point into the first `n1` scopes also points
/// into the first `n2 >= n1` scopes.
pub proof fn value_scopes_ok_mono(v: KoxValueV, n1: int, n2: int)
    requires
        value_scopes_ok(v, n1),
        n1 <= n2,
    ensures
        value_scopes_ok(v, n2),
    decreases v,
{
    match v {
        KoxValueV::Return(inner) => {
            value_scopes_ok_mono(*inner, n1, n2);
        },
        _ => {},
    }
}

/// Adding scopes (leaving the bindings as they are) keeps every stored
/// value's scope indices valid.
pub proof fn env_values_ok_grow(e1: EnvV, e2: EnvV)
    requires
        env_values_ok(e1),
        e2.bindings =~= e1.bindings,
        e2.parents.len() >= e1.parents.len(),
    ensures
        env_values_ok(e2),
{
    assert forall|j: int| 0 <= j < e2.bindings.len() implies value_scopes_ok(
        (#[trigger] e2.bindings[j]).value,
        e2.parents.len() as int,
    ) by {
        assert(e2.bindings[j] == e1.bindings[j]);
        value_scopes_ok_mono(e1.bindings[j].value, e1.parents.len() as int, e2.parents.len() as int);
    }
}

/// A scope found by `resolve` exists, lies on the chain (so never inside
/// the scope the search started from), and holds a binding for the name.
pub proof fn resolve_ok(e: EnvV, scope: int, name: Seq<char>)
    ensures
        match resolve(e, scope, name) {
            Some(s) => 0 <= s <= scope && s < e.parents.len() && find_binding(
                e.bindings,
                s as usize,
                name,
            ) is Some,
            None => true,
        },
    decreases scope,
{
    if 0 <= scope < e.parents.len() {
        if find_binding(e.bindings, scope as usize, name) is Some {
        } else {
            match e.parents[scope] {
                Some(p) => {
                    if p < scope {
                        resolve_ok(e, p as int, name);
                    }
                },
                None => {},
            }
        }
    }
}

/// A value found by `lookup` in a well-stocked arena carries only scope
/// indices that exist.
pub proof fn lookup_values_ok(e: EnvV, scope: int, name: Seq<char>)
    requires
        env_values_ok(e),
    ensures
        match lookup(e, scope, name) {
            Some(v) => value_scopes_ok(v, e.parents.len() as int),
            None => true,
        },
{
    resolve_ok(e, scope, name);
    match resolve(e, scope, name) {
        Some(s) => {
            find_binding_ok(e.bindings, s as usize, name);
        },
        None => {},
    }
}

/// Appending a binding that does not concern `scope` and `name` leaves their
/// binding index unchanged.
pub proof fn find_binding_push_other(bs: Seq<BindingV>, b: BindingV, scope: usize, name: Seq<char>)
    requires
        b.scope != scope || b.name != name,
    ensures
        find_binding(bs.push(b), scope, name) == find_binding(bs, scope, name),
{
    assert(bs.push(b).drop_last() =~= bs);
}

/// A scope no binding belongs to holds no binding.
pub proof fn find_binding_none(bs: Seq<BindingV>, scope: usize, name: Seq<char>)
    requires
        forall|j: int| 0 <= j < bs.len() ==> (#[trigger] bs[j]).scope != scope,
    ensures
        find_binding(bs, scope, name) is None,
    decreases bs.len(),
{
    if bs.len() > 0 {
        assert(bs.drop_last() =~= bs.subrange(0, bs.len() - 1));
        find_binding_none(bs.drop_last(), scope, name);
    }
}

/// Appending a scope to the arena changes how no existing scope resolves a
/// name.
pub proof fn resolve_extend_parents(e: EnvV, link: Option<usize>, s: int, name: Seq<char>)
    requires
        s < e.parents.len(),
    ensures
        ({
            let e2 = EnvV { parents: e.parents.push(link), bindings: e.bindings };
            resolve(e2, s, name) == resolve(e, s, name) && lookup(e2, s, name) == lookup(
                e,
                s,
                name,
            )
        }),
    decreases s,
{
    let e2 = EnvV { parents: e.parents.push(link), bindings: e.bindings };
    if 0 <= s < e.parents.len() {
        assert(e2.parents[s] == e.parents[s]);
        match e.parents[s] {
            Some(p) => {
                if p < s {
                    resolve_extend_parents(e, link, p as int, name);
                }
            },
            None => {},
        }
    }
}

/// Law: binding a name in a scope makes it what that scope sees for the
/// name, shadowing anything outer.
pub proof fn lemma_insert_then_lookup(e: EnvV, scope: usize, name: Seq<char>, value: KoxValueV)
    requires
        scope < e.parents.len(),
    ensures
        ({
            let e2 = EnvV {
                parents: e.parents,
                bindings: e.bindings.push(BindingV { scope, name, value }),
            };
            lookup(e2, scope as int, name) == Some(value)
        }),
{
    let e2 = EnvV {
        parents: e.parents,
        bindings: e.bindings.push(BindingV { scope, name, value }),
    };
    assert(e2.bindings.last() == BindingV { scope, name, value });
    assert(find_binding(e2.bindings, scope, name) == Some(e2.bindings.len() - 1));
}

/// Law: binding a name in an inner scope leaves every strictly outer scope
/// seeing exactly what it saw before; in a well-formed arena an outer
/// scope's chain never reaches an inner scope.
pub proof fn lemma_inner_binding_invisible_outside(e: EnvV, s: int, b: BindingV, name: Seq<char>)
    requires
        env_wf(e),
        s < b.scope,
    ensures
        ({
            let e2 = EnvV { parents: e.parents, bindings: e.bindings.push(b) };
            resolve(e2, s, name) == resolve(e, s, name) && lookup(e2, s, name) == lookup(
                e,
                s,
                name,
            )
        }),
    decreases s,
{
    let e2 = EnvV { parents: e.parents, bindings: e.bindings.push(b) };
    if 0 <= s < e.parents.len() {
        find_binding_push_other(e.bindings, b, s as usize, name);
        match e.parents[s] {
            Some(p) => {
                if p < s {
                    lemma_inner_binding_invisible_outside(e, p as int, b, name);
                }
            },
            None => {},
        }
        match resolve(e, s, name) {
            Some(rs) => {
                resolve_ok(e, s, name);
                find_binding_push_other(e.bindings, b, rs as usize, name);
                find_binding_ok(e.bindings, rs as usize, name);
            },
            None => {},
        }
    }
}

/// Replacing a binding's value, keeping its scope and name, moves no
/// binding index.
pub proof fn find_binding_update_value(
    bs: Seq<BindingV>,
    i: int,
    b2: BindingV,
    scope: usize,
    name: Seq<char>,
)
    requires
        0 <= i < bs.len(),
        bs[i].scope == b2.scope,
        bs[i].name == b2.name,
    ensures
        find_binding(bs.update(i, b2), scope, name) == find_binding(bs, scope, name),
    decreases bs.len(),
{
    let bs2 = bs.update(i, b2);
    if i == bs.len() - 1 {
        assert(bs2.last() == b2);
        assert(bs2.drop_last() =~= bs.drop_last());
    } else {
        assert(bs2.last() == bs.last());
        assert(bs2.drop_last() =~= bs.drop_last().update(i, b2));
        find_binding_update_value(bs.drop_last(), i, b2, scope, name);
    }
}

/// Replacing a binding's value, keeping its scope and name, changes how no
/// scope resolves a name.
pub proof fn resolve_update_value(e: EnvV, i: int, b2: BindingV, scope: int, name: Seq<char>)
    requires
        0 <= i < e.bindings.len(),
        e.bindings[i].scope == b2.scope,
        e.bindings[i].name == b2.name,
    ensures
        resolve(EnvV { parents: e.parents, bindings: e.bindings.update(i, b2) }, scope, name)
            == resolve(e, scope, name),
    decreases scope,
{
    let e2 = EnvV { parents: e.parents, bindings: e.bindings.update(i, b2) };
    if 0 <= scope < e.parents.len() {
        find_binding_update_value(e.bindings, i, b2, scope as usize, name);
        match e.parents[scope] {
            Some(p) => {
                if p < scope {
                    resolve_update_value(e, i, b2, p as int, name);
                }
            },
            None => {},
        }
    }
}

/// Law: assigning to a name makes the new value what every scope that
/// resolved the name to the same binding sees, and the assignment happens
/// in the scope `resolve` names: the nearest enclosing scope that defines
/// the name.
pub proof fn lemma_assign_then_lookup(e: EnvV, scope: int, name: Seq<char>, value: KoxValueV)
    requires
        resolve(e, scope, name) is Some,
    ensures
        ({
            let s = resolve(e, scope, name).unwrap();
            let i = find_binding(e.bindings, s as usize, name).unwrap();
            let e2 = EnvV {
                parents: e.parents,
                bindings: e.bindings.update(i, BindingV { scope: s as usize, name, value }),
            };
            lookup(e2, scope, name) == Some(value)
        }),
{
    resolve_ok(e, scope, name);
    let s = resolve(e, scope, name).unwrap();
    find_binding_ok(e.bindings, s as usize, name);
    let i = find_binding(e.bindings, s as usize, name).unwrap();
    let b2 = BindingV { scope: s as usize, name, value };
    resolve_update_value(e, i, b2, scope, name);
    find_binding_update_value(e.bindings, i, b2, s as usize, name);
}

/// Law: a scope chain is shared by reference, not copied.  A fresh child
/// scope holds nothing of its own, so it sees for every name exactly what
/// its parent sees — including bindings made in the parent after the child
/// was created.
pub proof fn lemma_child_shares_parent(e: EnvV, parent: usize, name: Seq<char>)
    requires
        env_wf(e),
        parent < e.parents.len(),
        e.parents.len() <= usize::MAX,
    ensures
        ({
            let e2 = EnvV { parents: e.parents.push(Some(parent)), bindings: e.bindings };
            lookup(e2, e.parents.len() as int, name) == lookup(e, parent as int, name)
        }),
{
    let child = e.parents.len() as int;
    let e2 = EnvV { parents: e.parents.push(Some(parent)), bindings: e.bindings };
    assert forall|j: int| 0 <= j < e2.bindings.len() implies (#[trigger] e2.bindings[j]).scope
        != child as usize by {
        assert(e.bindings[j].scope < e.parents.len());
    }
    find_binding_none(e2.bindings, child as usize, name);
    assert(e2.parents[child] == Some(parent));
    resolve_extend_parents(e, Some(parent), parent as int, name);
}

/// The chain of lexical scopes: an arena of scopes with parent links, and
/// the bindings they hold.
#[derive(Debug)]
pub struct Environment {
    parents: Vec<Option<usize>>,
    bindings: Vec<Binding>,
}

impl View for Environment {
    type V = EnvV;

    closed spec fn view(&self) -> EnvV {
        EnvV {
            parents: self.parents@,
            bindings: self.bindings@.map_values(|b: Binding| b@),
        }
    }
}

impl Environment {
    /// Well-formedness of the arena.
    pub open spec fn wf(&self) -> bool {
        env_wf(self@)
    }

    /// A fresh arena holding one empty global scope.
    pub fn new() -> (r: Environment)
        ensures
            r.wf(),
            r@.parents =~= seq![Option::<usize>::None],
            r@.bindings =~= Seq::<BindingV>::empty(),
    {
        let mut parents: Vec<Option<usize>> = Vec::new();
        parents.push(None);
        let r = Environment { parents, bindings: Vec::new() };
        proof {
            assert(r@.bindings =~= Seq::<BindingV>::empty());
        }
        r
    }

    /// An owned copy of the arena with the same mathematical value.
    pub fn dup(&self) -> (r: Environment)
        ensures
            r@ == self@,
    {
        let mut parents: Vec<Option<usize>> = Vec::new();
        let mut i: usize = 0;
        while i < self.parents.len()
            invariant
                i <= self.parents.len(),
                parents@ =~= self.parents@.subrange(0, i as int),
            decreases self.parents.len() - i,
        {
            parents.push(self.parents[i]);
            i = i + 1;
        }
        let mut bindings: Vec<Binding> = Vec::new();
        let mut j: usize = 0;
        while j < self.bindings.len()
            invariant
                j <= self.bindings.len(),
                bindings@.len() == j,
                forall|k: int| 0 <= k < j ==> (#[trigger] bindings@[k])@ == self.bindings@[k]@,
            decreases self.bindings.len() - j,
        {
            let b = &self.bindings[j];
            bindings.push(Binding { scope: b.scope, name: b.name.clone(), value: b.value.dup() });
            j = j + 1;
        }
        let r = Environment { parents, bindings };
        proof {
            assert(r@.parents =~= self@.parents);
            assert(r@.bindings =~= self@.bindings);
        }
        r
    }

    /// The number of scopes in the arena.
    pub fn scope_count(&self) -> (r: usize)
        ensures
            r == self@.parents.len(),
    {
        self.parents.len()
    }

    /// A new scope whose parent is (a shared reference to) `parent`.  The
    /// parent's bindings are not copied: they are reached through the link.
    pub fn child(&mut self, parent: usize) -> (r: usize)
        requires
            old(self).wf(),
            parent < old(self)@.parents.len(),
        ensures
            final(self).wf(),
            r == old(self)@.parents.len(),
            final(self)@.parents =~= old(self)@.parents.push(Some(parent)),
            final(self)@.bindings =~= old(self)@.bindings,
    {
        let r = self.parents.len();
        self.parents.push(Some(parent));
        r
    }

    /// The index of the binding for `name` in scope `scope`, if any.
    fn find_in_scope(&self, scope: usize, name: &String) -> (r: Option<usize>)
        ensures
            match r {
                Some(i) => find_binding(self@.bindings, scope, name@) == Some(i as int) && i
                    < self@.bindings.len(),
                None => find_binding(self@.bindings, scope, name@) is None,
            },
    {
        let ghost bs = self@.bindings;
        let mut i: usize = self.bindings.len();
        proof {
            assert(bs.subrange(0, i as int) =~= bs);
        }
        while i > 0
            invariant
                i <= self.bindings.len(),
                bs == self@.bindings,
                bs.len() == self.bindings.len(),
                find_binding(bs, scope, name@) == find_binding(bs.subrange(0, i as int), scope, name@),
            decreases i,
        {
            i = i - 1;
            let b = &self.bindings[i];
            proof {
                assert(bs.subrange(0, i + 1).last() == bs[i as int]);
                assert(bs.subrange(0, i + 1).drop_last() =~= bs.subrange(0, i as int));
            }
            if b.scope == scope && b.name == *name {
                return Some(i);
            }
        }
        proof {
            assert(bs.subrange(0, 0) =~= Seq::<BindingV>::empty());
        }
        None
    }

    /// The value bound to `name` as seen from `scope`: search the scope,
    /// then delegate to its parent; the innermost binding wins.
    pub fn get(&self, scope: usize, name: &String) -> (r: Option<KoxValue>)
        requires
            self.wf(),
            scope < self@.parents.len(),
        ensures
            match r {
                Some(v) => lookup(self@, scope as int, name@) == Some(v@),
                None => lookup(self@, scope as int, name@) is None,
            },
    {
        let mut cur = scope;
        loop
            invariant
                self.wf(),
                cur < self@.parents.len(),
                lookup(self@, scope as int, name@) == lookup(self@, cur as int, name@),
            decreases cur,
        {
            match self.find_in_scope(cur, name) {
                Some(i) => {
                    return Some(self.bindings[i].value.dup());
                },
                None => {
                    match self.parents[cur] {
                        Some(p) => {
                            cur = p;
                        },
                        None => {
                            return None;
                        },
                    }
                },
            }
        }
    }

    /// Bind `name` to `value` in scope `scope` itself, shadowing any outer
    /// binding of the same name.
    pub fn insert(&mut self, scope: usize, name: String, value: KoxValue)
        requires
            old(self).wf(),
            scope < old(self)@.parents.len(),
        ensures
            final(self).wf(),
            final(self)@.parents =~= old(self)@.parents,
            final(self)@.bindings =~= old(self)@.bindings.push(
                BindingV { scope, name: name@, value: value@ },
            ),
    {
        let ghost b0 = self@.bindings;
        self.bindings.push(Binding { scope, name, value });
        proof {
            assert(self@.bindings =~= b0.push(
                BindingV { scope, name: name@, value: value@ },
            ));
        }
    }

    /// Assign `value` to the binding for `name` in the nearest enclosing
    /// scope that defines it; report whether such a scope was found.  When
    /// none is found the arena is unchanged.
    pub fn assign(&mut self, scope: usize, name: &String, value: KoxValue) -> (r: bool)
        requires
            old(self).wf(),
            scope < old(self)@.parents.len(),
        ensures
            final(self).wf(),
            final(self)@.parents =~= old(self)@.parents,
            r == (resolve(old(self)@, scope as int, name@) is Some),
            match resolve(old(self)@, scope as int, name@) {
                Some(s) => match find_binding(old(self)@.bindings, s as usize, name@) {
                    Some(i) => final(self)@.bindings =~= old(self)@.bindings.update(
                        i,
                        BindingV { scope: s as usize, name: name@, value: value@ },
                    ),
                    None => false,
                },
                None => final(self)@.bindings =~= old(self)@.bindings,
            },
    {
        let ghost e0 = self@;
        let mut cur = scope;
        loop
            invariant
                e0 == old(self)@,
                self.wf(),
                self@ == e0,
                cur < self@.parents.len(),
                resolve(e0, scope as int, name@) == resolve(e0, cur as int, name@),
            decreases cur,
        {
            match self.find_in_scope(cur, name) {
                Some(i) => {
                    proof {
                        find_binding_ok(e0.bindings, cur, name@);
                        assert(resolve(e0, cur as int, name@) == Some(cur as int));
                    }
                    self.bindings[i] = Binding { scope: cur, name: name.clone(), value };
                    proof {
                        assert(self@.bindings =~= e0.bindings.update(
                            i as int,
                            BindingV { scope: cur, name: name@, value: value@ },
                        ));
                    }
                    return true;
                },
                None => {
                    match self.parents[cur] {
                        Some(p) => {
                            cur = p;
                        },
                        None => {
                            proof {
                                assert(resolve(e0, cur as int, name@) is None);
                            }
                            return false;
                        },
                    }
                },
            }
        }
    }
}

} // verus!
