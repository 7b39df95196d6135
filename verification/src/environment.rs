//! Scoped variable bindings.
//!
//! An environment is a stack of scopes, the outermost first. A name is
//! looked up from the innermost scope outward; a definition always lands in
//! the innermost scope and so shadows an outer binding of the same name
//! without touching it.

use vstd::prelude::*;
use vstd::string::StringExecFns;
use crate::error::{ErrorKind, GizmoError};
use crate::text::same_text;
use crate::value::{Value, ValueView};

verus! {

/// One name bound to one value.
pub struct Binding {
    name: String,
    value: Value,
}

/// A stack of scopes; the last one is the innermost.
pub struct Environment {
    scopes: Vec<Vec<Binding>>,
}

/// The bindings of one scope.
pub type ScopeView = Map<Seq<char>, ValueView>;

/// Whether some binding of the list has the given name.
pub closed spec fn binds(bs: Seq<Binding>, name: Seq<char>) -> bool {
    exists|i: int| 0 <= i < bs.len() && (#[trigger] bs[i]).name@ == name
}

/// The position of the binding with the given name.
pub closed spec fn index_of(bs: Seq<Binding>, name: Seq<char>) -> int {
    choose|i: int| 0 <= i < bs.len() && (#[trigger] bs[i]).name@ == name
}

/// No name is bound twice, and every value is well formed.
pub closed spec fn scope_wf(bs: Seq<Binding>) -> bool {
    &&& forall|i: int, j: int|
        0 <= i < j < bs.len() ==> (#[trigger] bs[i]).name@ != (#[trigger] bs[j]).name@
    &&& forall|i: int| 0 <= i < bs.len() ==> (#[trigger] bs[i]).value@.wf()
}

/// The bindings of a scope as a map from names to values.
pub closed spec fn scope_view(bs: Seq<Binding>) -> ScopeView {
    Map::new(|n: Seq<char>| binds(bs, n), |n: Seq<char>| bs[index_of(bs, n)].value@)
}

/// The value that `name` resolves to in a stack of scopes: that of the
/// innermost scope that binds it.
pub open spec fn resolve(scopes: Seq<ScopeView>, name: Seq<char>) -> Option<ValueView>
    decreases scopes.len(),
{
    if scopes.len() == 0 {
        None
    } else if scopes.last().contains_key(name) {
        Some(scopes.last()[name])
    } else {
        resolve(scopes.drop_last(), name)
    }
}

/// The position of the innermost scope that binds `name`, if there is one.
pub open spec fn binding_scope(scopes: Seq<ScopeView>, name: Seq<char>) -> Option<int>
    decreases scopes.len(),
{
    if scopes.len() == 0 {
        None
    } else if scopes.last().contains_key(name) {
        Some(scopes.len() - 1)
    } else {
        binding_scope(scopes.drop_last(), name)
    }
}

/// A name bound in the innermost scope resolves to that binding, whatever
/// outer scopes hold; and once the innermost scope is closed, every name
/// resolves as it did before the scope was opened.
pub proof fn law_shadowing(outer: Seq<ScopeView>, inner: ScopeView, name: Seq<char>, other: Seq<char>)
    ensures
        inner.contains_key(name) ==> resolve(outer.push(inner), name) == Some(inner[name]),
        !inner.contains_key(other) ==> resolve(outer.push(inner), other) == resolve(outer, other),
        outer.push(inner).drop_last() == outer,
{
    assert(outer.push(inner).drop_last() =~= outer);
    assert(outer.push(inner).last() == inner);
}

proof fn lemma_scope_lookup(bs: Seq<Binding>, i: int)
    requires
        scope_wf(bs),
        0 <= i < bs.len(),
    ensures
        binds(bs, bs[i].name@),
        index_of(bs, bs[i].name@) == i,
        scope_view(bs).contains_key(bs[i].name@),
        scope_view(bs)[bs[i].name@] == bs[i].value@,
{
    let j = index_of(bs, bs[i].name@);
    if j < i {
        assert(bs[j].name@ != bs[i].name@);
    }
    if i < j {
        assert(bs[i].name@ != bs[j].name@);
    }
}

proof fn lemma_scope_set(bs: Seq<Binding>, i: int, b: Binding)
    requires
        scope_wf(bs),
        0 <= i < bs.len(),
        b.name@ == bs[i].name@,
        b.value@.wf(),
    ensures
        scope_wf(bs.update(i, b)),
        scope_view(bs.update(i, b)) == scope_view(bs).insert(b.name@, b.value@),
{
    let after = bs.update(i, b);
    assert forall|p: int, q: int| 0 <= p < q < after.len() implies (#[trigger] after[p]).name@ != (
    #[trigger] after[q]).name@ by {
        assert(after[p].name@ == bs[p].name@);
        assert(after[q].name@ == bs[q].name@);
    }
    assert forall|p: int| 0 <= p < after.len() implies (#[trigger] after[p]).value@.wf() by {
        if p != i {
            assert(after[p] == bs[p]);
        }
    }
    assert(scope_wf(after));
    let m1 = scope_view(after);
    let m2 = scope_view(bs).insert(b.name@, b.value@);
    assert forall|n: Seq<char>| m1.contains_key(n) <==> m2.contains_key(n) by {
        if binds(after, n) {
            let k = index_of(after, n);
            assert(bs[k].name@ == n);
        }
        if binds(bs, n) {
            let k = index_of(bs, n);
            assert(after[k].name@ == n);
        }
        if n == b.name@ {
            assert(after[i].name@ == n);
        }
    }
    assert forall|n: Seq<char>| m1.contains_key(n) implies m1[n] == m2[n] by {
        let k = index_of(after, n);
        lemma_scope_lookup(after, k);
        if n == b.name@ {
            lemma_scope_lookup(after, i);
        } else {
            assert(bs[k].name@ == n);
            lemma_scope_lookup(bs, k);
        }
    }
    assert(m1 =~= m2);
}

proof fn lemma_scope_push(bs: Seq<Binding>, b: Binding)
    requires
        scope_wf(bs),
        !binds(bs, b.name@),
        b.value@.wf(),
    ensures
        scope_wf(bs.push(b)),
        scope_view(bs.push(b)) == scope_view(bs).insert(b.name@, b.value@),
{
    let after = bs.push(b);
    assert forall|p: int, q: int| 0 <= p < q < after.len() implies (#[trigger] after[p]).name@ != (
    #[trigger] after[q]).name@ by {
        assert(after[p] == bs[p]);
        if q < bs.len() {
            assert(after[q] == bs[q]);
        }
    }
    assert forall|p: int| 0 <= p < after.len() implies (#[trigger] after[p]).value@.wf() by {
        if p < bs.len() {
            assert(after[p] == bs[p]);
        }
    }
    assert(scope_wf(after));
    let m1 = scope_view(after);
    let m2 = scope_view(bs).insert(b.name@, b.value@);
    assert forall|n: Seq<char>| m1.contains_key(n) <==> m2.contains_key(n) by {
        if binds(after, n) {
            let k = index_of(after, n);
            if k < bs.len() {
                assert(bs[k].name@ == n);
            }
        }
        if binds(bs, n) {
            let k = index_of(bs, n);
            assert(after[k].name@ == n);
        }
        if n == b.name@ {
            assert(after[bs.len() as int].name@ == n);
        }
    }
    assert forall|n: Seq<char>| m1.contains_key(n) implies m1[n] == m2[n] by {
        let k = index_of(after, n);
        lemma_scope_lookup(after, k);
        if n != b.name@ {
            assert(bs[k].name@ == n);
            lemma_scope_lookup(bs, k);
        }
    }
    assert(m1 =~= m2);
}

proof fn lemma_empty_scope()
    ensures
        scope_wf(Seq::<Binding>::empty()),
        scope_view(Seq::<Binding>::empty()) == Map::<Seq<char>, ValueView>::empty(),
{
    assert(scope_view(Seq::<Binding>::empty()) =~= Map::<Seq<char>, ValueView>::empty());
}

/// The position of the binding named `name` in a scope, if it has one.
fn position(bs: &Vec<Binding>, name: &str) -> (r: Option<usize>)
    requires
        scope_wf(bs@),
    ensures
        r matches Some(i) ==> i < bs@.len() && bs@[i as int].name@ == name@,
        r is Some <==> scope_view(bs@).contains_key(name@),
{
    let mut i: usize = 0;
    while i < bs.len()
        invariant
            scope_wf(bs@),
            i <= bs@.len(),
            forall|j: int| 0 <= j < i ==> (#[trigger] bs@[j]).name@ != name@,
        decreases bs@.len() - i,
    {
        if same_text(bs[i].name.as_str(), name) {
            proof {
                lemma_scope_lookup(bs@, i as int);
            }
            return Some(i);
        }
        i = i + 1;
    }
    proof {
        if binds(bs@, name@) {
            let k = index_of(bs@, name@);
            assert(bs@[k].name@ != name@);
        }
    }
    None
}

/// Binds `name` to `value` in a scope, replacing a binding of the same name.
fn bind(bs: &mut Vec<Binding>, name: String, value: Value)
    requires
        scope_wf(old(bs)@),
        value.wf(),
    ensures
        scope_wf(final(bs)@),
        scope_view(final(bs)@) == scope_view(old(bs)@).insert(name@, value@),
{
    match position(bs, name.as_str()) {
        Some(i) => {
            let b = Binding { name, value };
            proof {
                lemma_scope_set(bs@, i as int, b);
            }
            bs.set(i, b);
        },
        None => {
            let b = Binding { name, value };
            proof {
                assert(!binds(bs@, b.name@));
                lemma_scope_push(bs@, b);
            }
            bs.push(b);
        },
    }
}

impl View for Environment {
    type V = Seq<ScopeView>;

    closed spec fn view(&self) -> Seq<ScopeView> {
        Seq::new(self.scopes@.len(), |i: int| scope_view(self.scopes@[i]@))
    }
}

/// Whether every value bound in any of the scopes is well formed.
pub open spec fn values_wf(scopes: Seq<ScopeView>) -> bool {
    forall|i: int, n: Seq<char>|
        0 <= i < scopes.len() && (#[trigger] scopes[i]).contains_key(n) ==> (#[trigger] scopes[i][n]).wf()
}

impl Environment {
    /// There is at least one scope, and no scope binds a name twice.
    pub closed spec fn wf(&self) -> bool {
        &&& self.scopes@.len() > 0
        &&& forall|i: int| 0 <= i < self.scopes@.len() ==> scope_wf((#[trigger] self.scopes@[i])@)
    }

    /// A well-formed environment has a scope, and holds well-formed values only.
    pub proof fn lemma_wf(&self)
        requires
            self.wf(),
        ensures
            self@.len() > 0,
            values_wf(self@),
    {
        assert forall|i: int, n: Seq<char>|
            0 <= i < self@.len() && (#[trigger] self@[i]).contains_key(n) implies (
        #[trigger] self@[i][n]).wf() by {
            let bs = self.scopes@[i]@;
            assert(scope_wf(bs));
            let k = index_of(bs, n);
            assert(bs[k].value@.wf());
        }
    }

    /// An environment with one empty scope.
    pub fn new() -> (e: Environment)
        ensures
            e.wf(),
            e@ == seq![Map::<Seq<char>, ValueView>::empty()],
    {
        let mut scopes: Vec<Vec<Binding>> = Vec::new();
        scopes.push(Vec::new());
        let e = Environment { scopes };
        proof {
            lemma_empty_scope();
            assert(e.scopes@[0]@ =~= Seq::<Binding>::empty());
            assert(e@ =~= seq![Map::<Seq<char>, ValueView>::empty()]);
        }
        e
    }

    /// The environment `parent` with a new, empty innermost scope.
    pub fn new_enclosed(parent: Environment) -> (e: Environment)
        requires
            parent.wf(),
        ensures
            e.wf(),
            e@ == parent@.push(Map::<Seq<char>, ValueView>::empty()),
    {
        let mut e = parent;
        e.push_scope();
        e
    }

    /// Opens a new, empty innermost scope.
    pub fn push_scope(&mut self)
        requires
            old(self).wf(),
        ensures
            final(self).wf(),
            final(self)@ == old(self)@.push(Map::<Seq<char>, ValueView>::empty()),
    {
        let ghost before = self.scopes@;
        self.scopes.push(Vec::new());
        proof {
            lemma_empty_scope();
            let last = self.scopes@.len() - 1;
            assert(self.scopes@[last]@ =~= Seq::<Binding>::empty());
            assert forall|i: int| 0 <= i < self.scopes@.len() implies scope_wf(
                (#[trigger] self.scopes@[i])@,
            ) by {
                if i < last {
                    assert(self.scopes@[i] == before[i]);
                }
            }
            assert(self@ =~= old(self)@.push(Map::<Seq<char>, ValueView>::empty()));
        }
    }

    /// Closes the innermost scope and forgets its bindings. The outermost
    /// scope stays: with one scope left nothing changes.
    pub fn pop_scope(&mut self)
        requires
            old(self).wf(),
        ensures
            final(self).wf(),
            old(self)@.len() > 1 ==> final(self)@ == old(self)@.drop_last(),
            old(self)@.len() <= 1 ==> final(self)@ == old(self)@,
    {
        if self.scopes.len() > 1 {
            let ghost before = self.scopes@;
            self.scopes.pop();
            proof {
                assert forall|i: int| 0 <= i < self.scopes@.len() implies scope_wf(
                    (#[trigger] self.scopes@[i])@,
                ) by {
                    assert(self.scopes@[i] == before[i]);
                }
                assert(self@ =~= old(self)@.drop_last());
            }
        }
    }

    /// The number of scopes.
    pub fn depth(&self) -> (n: usize)
        ensures
            n == self@.len(),
    {
        self.scopes.len()
    }

    /// Binds `name` to `value` in the innermost scope. A binding of the same
    /// name in that scope is replaced; outer scopes are not touched.
    pub fn define(&mut self, name: String, value: Value)
        requires
            old(self).wf(),
            value.wf(),
        ensures
            final(self).wf(),
            final(self)@ == old(self)@.update(
                old(self)@.len() - 1,
                old(self)@.last().insert(name@, value@),
            ),
    {
        let ghost before = self.scopes@;
        let last = self.scopes.len() - 1;
        let mut top = self.scopes.pop().unwrap();
        bind(&mut top, name, value);
        self.scopes.push(top);
        proof {
            assert forall|i: int| 0 <= i < self.scopes@.len() implies scope_wf(
                (#[trigger] self.scopes@[i])@,
            ) by {
                if i < last {
                    assert(self.scopes@[i] == before[i]);
                }
            }
            assert(self@ =~= old(self)@.update(
                old(self)@.len() - 1,
                old(self)@.last().insert(name@, value@),
            )) by {
                assert forall|i: int| 0 <= i < self@.len() implies self@[i] == old(self)@.update(
                    old(self)@.len() - 1,
                    old(self)@.last().insert(name@, value@),
                )[i] by {
                    if i < last {
                        assert(self.scopes@[i] == before[i]);
                    }
                }
            }
        }
    }

    /// A copy of the value that `name` resolves to: that of the innermost
    /// scope that binds it. A name bound nowhere is an undefined-variable
    /// error that carries the name.
    pub fn get(&self, name: &str) -> (r: Result<Value, GizmoError>)
        requires
            self.wf(),
        ensures
            r is Ok <==> resolve(self@, name@) is Some,
            r matches Ok(v) ==> Some(v@) == resolve(self@, name@) && v.wf(),
            r matches Err(e) ==> e.kind() == ErrorKind::UndefinedVariable && e.detail() == name@,
    {
        let mut k: usize = self.scopes.len();
        assert(self@.subrange(0, k as int) =~= self@);
        while k > 0
            invariant
                self.wf(),
                k <= self.scopes@.len(),
                resolve(self@, name@) == resolve(self@.subrange(0, k as int), name@),
            decreases k,
        {
            k = k - 1;
            let ghost outer = self@.subrange(0, k + 1);
            assert(outer.last() == scope_view(self.scopes@[k as int]@));
            assert(outer.drop_last() =~= self@.subrange(0, k as int));
            match position(&self.scopes[k], name) {
                Some(i) => {
                    proof {
                        lemma_scope_lookup(self.scopes@[k as int]@, i as int);
                        assert(scope_wf(self.scopes@[k as int]@));
                    }
                    return Ok(self.scopes[k][i].value.duplicate());
                },
                None => {},
            }
        }
        assert(self@.subrange(0, 0).len() == 0);
        Err(GizmoError::UndefinedVariable(String::from_str(name)))
    }

    /// Gives `name` a new value in the innermost scope that binds it. A name
    /// bound nowhere is an undefined-variable error, and nothing changes.
    pub fn assign(&mut self, name: &str, value: Value) -> (r: Result<(), GizmoError>)
        requires
            old(self).wf(),
            value.wf(),
        ensures
            final(self).wf(),
            r is Ok <==> binding_scope(old(self)@, name@) is Some,
            r is Ok ==> final(self)@ == old(self)@.update(
                binding_scope(old(self)@, name@)->0,
                old(self)@[binding_scope(old(self)@, name@)->0].insert(name@, value@),
            ),
            r is Err ==> final(self)@ == old(self)@,
            r matches Err(e) ==> e.kind() == ErrorKind::UndefinedVariable && e.detail() == name@,
    {
        let ghost before = self.scopes@;
        let ghost before_view = self@;
        let mut k: usize = self.scopes.len();
        assert(before_view.subrange(0, k as int) =~= before_view);
        while k > 0
            invariant
                self.wf(),
                value.wf(),
                before_view == old(self)@,
                self.scopes@ == before,
                self@ == before_view,
                k <= self.scopes@.len(),
                binding_scope(before_view, name@) == binding_scope(
                    before_view.subrange(0, k as int),
                    name@,
                ),
            decreases k,
        {
            k = k - 1;
            let ghost outer = before_view.subrange(0, k + 1);
            assert(outer.last() == scope_view(self.scopes@[k as int]@));
            assert(outer.drop_last() =~= before_view.subrange(0, k as int));
            match position(&self.scopes[k], name) {
                Some(i) => {
                    let mut found = self.scopes.remove(k);
                    let b = Binding { name: String::from_str(name), value };
                    proof {
                        assert(binding_scope(outer, name@) == Some(k as int));
                        lemma_scope_set(found@, i as int, b);
                    }
                    found.set(i, b);
                    self.scopes.insert(k, found);
                    proof {
                        assert forall|j: int| 0 <= j < self.scopes@.len() implies scope_wf(
                            (#[trigger] self.scopes@[j])@,
                        ) by {
                            if j != k {
                                assert(self.scopes@[j] == before[j]);
                            }
                        }
                        let target = before_view.update(
                            k as int,
                            before_view[k as int].insert(name@, value@),
                        );
                        assert forall|j: int| 0 <= j < self@.len() implies self@[j] == target[j] by {
                            if j != k {
                                assert(self.scopes@[j] == before[j]);
                            }
                        }
                        assert(self@ =~= target);
                    }
                    return Ok(());
                },
                None => {},
            }
        }
        assert(before_view.subrange(0, 0).len() == 0);
        Err(GizmoError::UndefinedVariable(String::from_str(name)))
    }
}

} // verus!
