//! Scope stacks: where names are declared, found and assigned.

use vstd::prelude::*;

use crate::ast::Location;
use crate::eval::machine::Machine;
use crate::eval::machine::Scope;
use crate::eval::machine::ScopeRef;
use crate::eval::machine::bindings;
use crate::eval::state::innermost;
use crate::eval::state::Entries;
use crate::eval::state::St;
use crate::eval::state::distinct;
use crate::eval::state::has_key;
use crate::eval::state::key_index;
use crate::eval::value::SVal;
use crate::eval::value::SourcedValue;
use crate::eval::value::opt_sval;

verus! {

/// The scopes in which a piece of code runs, outermost first. A name is
/// looked for from the innermost scope outwards, and declared in the
/// innermost.
#[derive(Debug)]
pub struct ScopeStack(pub Vec<ScopeRef>);

impl View for ScopeStack {
    type V = Seq<ScopeRef>;

    open spec fn view(&self) -> Seq<ScopeRef> {
        self.0@
    }
}

impl Clone for ScopeStack {
    fn clone(&self) -> (r: Self)
        ensures
            r@ == self@,
    {
        ScopeStack(self.0.clone())
    }
}

/// The place in `stack`, below `top`, of the innermost scope that declares
/// `name`.
pub open spec fn find_scope(st: St, stack: Seq<ScopeRef>, name: Seq<char>, top: int) -> Option<int>
    decreases top,
{
    if top <= 0 {
        None
    } else if has_key(st.scopes[stack[top - 1] as int], name) {
        Some(top - 1)
    } else {
        find_scope(st, stack, name, top - 1)
    }
}

/// What `name` holds in the innermost scope of `stack` that declares it.
pub open spec fn get_spec(st: St, stack: Seq<ScopeRef>, name: Seq<char>) -> Option<SVal> {
    match find_scope(st, stack, name, stack.len() as int) {
        Some(k) => {
            let es = st.scopes[stack[k] as int];
            Some(es[key_index(es, name)].1.0)
        },
        None => None,
    }
}

/// `v` stored under `name` in the innermost scope of `stack` that declares
/// it, and whether there was such a scope.
pub open spec fn assign_spec(st: St, stack: Seq<ScopeRef>, name: Seq<char>, v: SVal) -> (St, bool) {
    match find_scope(st, stack, name, stack.len() as int) {
        Some(k) => {
            let s = stack[k] as int;
            (st.set_binding(s, key_index(st.scopes[s], name), v), true)
        },
        None => (st, false),
    }
}

/// `name` declared in the innermost scope of `stack`, or the place where
/// that scope declared it before.
pub open spec fn declare_spec(
    st: St,
    stack: Seq<ScopeRef>,
    name: Seq<char>,
    loc: Location,
    v: SVal,
) -> (St, Result<(), Location>) {
    let s = stack.last() as int;
    let es = st.scopes[s];
    if has_key(es, name) {
        (st, Err(es[key_index(es, name)].1.1))
    } else {
        (st.declare(s, name, v, loc), Ok(()))
    }
}

/// A new scope holding `es`, and `stack` with that scope innermost.
pub open spec fn push_spec(st: St, stack: Seq<ScopeRef>, es: Entries<(SVal, Location)>) -> (
    St,
    Seq<ScopeRef>,
) {
    (st.with_scope(es), stack.push(st.scopes.len() as usize))
}

pub proof fn lemma_find_scope_bounds(st: St, stack: Seq<ScopeRef>, name: Seq<char>, top: int)
    requires
        top <= stack.len(),
    ensures
        find_scope(st, stack, name, top) matches Some(k) ==> 0 <= k < top && has_key(
            st.scopes[stack[k] as int],
            name,
        ),
    decreases top,
{
    if top > 0 && !has_key(st.scopes[stack[top - 1] as int], name) {
        lemma_find_scope_bounds(st, stack, name, top - 1);
    }
}

impl ScopeStack {
    pub fn new(scopes: Vec<ScopeRef>) -> (r: ScopeStack)
        ensures
            r@ == scopes@,
    {
        ScopeStack(scopes)
    }

    /// The number of scopes on the stack.
    pub fn len(&self) -> (n: usize)
        ensures
            n == self@.len(),
    {
        self.0.len()
    }

    /// This stack with `scope`, stored as a new scope of the machine,
    /// innermost.
    pub fn new_from_push<'a>(&self, m: &mut Machine<'a>, scope: Scope) -> (r: ScopeStack)
        requires
            old(m)@.wf(),
            old(m)@.stack_ok(self@),
            distinct(bindings(scope@)),
            old(m)@.bindings_ok(bindings(scope@)),
        ensures
            (final(m)@, r@) == push_spec(old(m)@, self@, bindings(scope@)),
            r@.drop_last() == self@,
            r@.last() == old(m)@.scopes.len(),
            final(m)@.scopes[r@.last() as int] == bindings(scope@),
            final(m)@.wf(),
            old(m)@.grows_to(final(m)@),
            old(m)@.keeps_names(final(m)@, None),
            final(m)@.stack_ok(r@),
            r@.len() > 0,
    {
        let mut scopes = self.0.clone();
        let s = m.alloc_scope(scope);
        scopes.push(s);
        ScopeStack::new(scopes)
    }

    /// Declares `name` in the innermost scope. If that scope declares it
    /// already, nothing changes and the result is the place of the earlier
    /// declaration.
    pub fn declare<'a>(&self, m: &mut Machine<'a>, name: &str, loc: Location, v: SourcedValue) -> (r:
        Result<(), Location>)
        requires
            old(m)@.wf(),
            old(m)@.stack_ok(self@),
            self@.len() > 0,
            old(m)@.sval_ok(v@),
        ensures
            (final(m)@, r) == declare_spec(old(m)@, self@, name@, loc, v@),
            final(m)@.wf(),
            old(m)@.grows_to(final(m)@),
            old(m)@.keeps_names(final(m)@, innermost(self@)),
    {
        let s = self.0[self.0.len() - 1];
        let owned = name.to_owned();
        match m.scope_find(s, &owned) {
            Some(i) => Err(m.scope_loc(s, i)),
            None => {
                m.scope_declare(s, owned, v, loc);
                Ok(())
            },
        }
    }

    /// What `name` holds in the innermost scope that declares it.
    pub fn get<'a>(&self, m: &Machine<'a>, name: &String) -> (r: Option<SourcedValue>)
        requires
            m@.wf(),
            m@.stack_ok(self@),
        ensures
            opt_sval(r) == get_spec(m@, self@, name@),
            r matches Some(v) ==> m@.sval_ok(v@),
    {
        let mut top: usize = self.0.len();
        while top > 0
            invariant
                top <= self@.len(),
                m@.wf(),
                m@.stack_ok(self@),
                find_scope(m@, self@, name@, self@.len() as int) == find_scope(
                    m@,
                    self@,
                    name@,
                    top as int,
                ),
            decreases top,
        {
            let s = self.0[top - 1];
            match m.scope_find(s, name) {
                Some(i) => {
                    let v = m.scope_value(s, i);
                    proof {
                        assert(m@.bindings_ok(m@.scopes[s as int]));
                    }
                    return Some(v);
                },
                None => {},
            }
            top = top - 1;
        }
        None
    }

    /// Stores `v` under `name` in the innermost scope that declares it, and
    /// says whether there was one. The value is stored as it is: a scalar or
    /// a string is the caller's own copy, a list, object or function stays
    /// shared with every other holder of its handle.
    pub fn assign<'a>(&self, m: &mut Machine<'a>, name: &str, v: SourcedValue) -> (r: bool)
        requires
            old(m)@.wf(),
            old(m)@.stack_ok(self@),
            old(m)@.sval_ok(v@),
        ensures
            (final(m)@, r) == assign_spec(old(m)@, self@, name@, v@),
            final(m)@.wf(),
            old(m)@.grows_to(final(m)@),
            old(m)@.keeps_names(final(m)@, None),
    {
        let owned = name.to_owned();
        let mut top: usize = self.0.len();
        while top > 0
            invariant
                top <= self@.len(),
                *m == *old(m),
                m@.wf(),
                m@.sval_ok(v@),
                m@.stack_ok(self@),
                owned@ == name@,
                find_scope(m@, self@, name@, self@.len() as int) == find_scope(
                    m@,
                    self@,
                    name@,
                    top as int,
                ),
            decreases top,
        {
            let s = self.0[top - 1];
            match m.scope_find(s, &owned) {
                Some(i) => {
                    m.scope_set(s, i, v);
                    return true;
                },
                None => {},
            }
            top = top - 1;
        }
        false
    }
}

/// Stores `v` in `slot`.
pub fn set(slot: &mut SourcedValue, v: SourcedValue)
    ensures
        *final(slot) == v,
{
    *slot = v;
}

} // verus!
