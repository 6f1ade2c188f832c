//! The machine: the store behind every handle, the output written so far,
//! and the budget of steps.
//!
//! Lists, objects, user functions and scopes are shared and changed in place:
//! a value holds the handle of one, the machine holds what it contains. A
//! list, an object or a function is never taken away, so its handle stays
//! good for as long as the machine lives. Scopes are given back when nothing
//! can reach them any more: see [`Machine::release`].

use vstd::prelude::*;

use crate::ast::Block;
use crate::ast::Expr;
use crate::ast::Location;
use crate::eval::error::opt_text;
use crate::eval::order::key_less;
use crate::eval::order::key_lt;
use crate::eval::scope::ScopeStack;
use crate::eval::state::Entries;
use crate::eval::state::FuncView;
use crate::eval::state::St;
use crate::eval::state::distinct;
use crate::eval::state::has_key;
use crate::eval::state::is_rank;
use crate::eval::state::key_index;
use crate::eval::state::lemma_declare_wf;
use crate::eval::state::lemma_emit_wf;
use crate::eval::state::lemma_keeps_declare;
use crate::eval::state::lemma_keeps_same_scopes;
use crate::eval::state::lemma_keeps_set_binding;
use crate::eval::state::lemma_keeps_with_scope;
use crate::eval::state::lemma_key_index_is;
use crate::eval::state::lemma_put_prop_wf;
use crate::eval::state::lemma_rank_is;
use crate::eval::state::lemma_set_binding_wf;
use crate::eval::state::lemma_set_item_wf;
use crate::eval::state::lemma_sorted_distinct;
use crate::eval::state::lemma_tick_wf;
use crate::eval::state::lemma_with_func_wf;
use crate::eval::state::lemma_with_list_wf;
use crate::eval::state::lemma_with_object_wf;
use crate::eval::state::lemma_with_scope_wf;
use crate::eval::state::lookup;
use crate::eval::state::put;
use crate::eval::state::sorted;
use crate::eval::value::FuncRef;
use crate::eval::value::List;
use crate::eval::value::ListRef;
use crate::eval::value::Object;
use crate::eval::value::ObjectRef;
use crate::eval::value::SVal;
use crate::eval::value::SourcedValue;
use crate::eval::value::svals;

verus! {

/// Handle of a scope held by the machine.
pub type ScopeRef = usize;

/// The names one scope declares, in the order of their declaration, each
/// with its value and the place where it was declared.
pub type Scope = Vec<(String, (SourcedValue, Location))>;

/// A user function: its parameters and body, and the scopes it was made in.
pub struct Func<'a> {
    pub name: Option<String>,
    pub args: &'a Vec<Expr>,
    pub collect_args: bool,
    pub stmts: &'a Block,
    pub closure: ScopeStack,
}

impl<'a> View for Func<'a> {
    type V = FuncView;

    open spec fn view(&self) -> FuncView {
        FuncView {
            name: opt_text(self.name),
            args: self.args@,
            collect_args: self.collect_args,
            stmts: self.stmts@,
            closure: self.closure@,
        }
    }
}

/// The properties that `es` stands for.
pub open spec fn props(es: Seq<(String, SourcedValue)>) -> Entries<SVal> {
    Seq::new(es.len(), |i: int| (es[i].0@, es[i].1@))
}

/// The bindings that `es` stands for.
pub open spec fn bindings(es: Seq<(String, (SourcedValue, Location))>) -> Entries<
    (SVal, Location),
> {
    Seq::new(es.len(), |i: int| (es[i].0@, (es[i].1.0@, es[i].1.1)))
}

/// Binds `key` to `v` in `es`: in place of what `key` was bound to, or else
/// where the order of the keys asks for it.
pub fn put_entry(es: &mut Object, key: String, v: SourcedValue)
    requires
        sorted(props(old(es)@)),
    ensures
        props(final(es)@) == put(props(old(es)@), key@, v@),
        sorted(props(final(es)@)),
{
    let ghost model = props(es@);
    let n = es.len();
    let mut p: usize = 0;
    while p < n && key_less(&es[p].0, &key)
        invariant
            p <= n,
            n == es.len(),
            *es == *old(es),
            model == props(es@),
            forall|j: int| 0 <= j < p ==> key_lt((#[trigger] model[j]).0, key@),
        decreases n - p,
    {
        p = p + 1;
    }
    proof {
        assert forall|j: int| p <= j < model.len() implies !key_lt((#[trigger] model[j]).0, key@) by {
            if j > p {
                assert(key_lt(model[p as int].0, model[j].0));
                if key_lt(model[j].0, key@) {
                    crate::eval::order::lemma_key_lt_transitive(
                        model[p as int].0,
                        model[j].0,
                        key@,
                    );
                }
            }
        }
        assert(is_rank(model, key@, p as int));
        lemma_rank_is(model, key@, p as int);
        crate::eval::state::lemma_put(model, key@, v@);
    }
    let ghost kv = key@;
    let ghost vv = v@;
    if p < n && es[p].0 == key {
        es[p] = (key, v);
        assert(props(es@) =~= put(model, kv, vv));
    } else {
        es.insert(p, (key, v));
        assert(props(es@) =~= put(model, kv, vv));
    }
}

pub struct Machine<'a> {
    lists: Vec<List>,
    objects: Vec<Object>,
    funcs: Vec<Func<'a>>,
    scopes: Vec<Scope>,
    sealed: usize,
    output: Vec<u8>,
    fuel: u64,
}

impl<'a> View for Machine<'a> {
    type V = St;

    closed spec fn view(&self) -> St {
        St {
            lists: Seq::new(self.lists@.len(), |r: int| svals(self.lists@[r]@)),
            objects: Seq::new(self.objects@.len(), |r: int| props(self.objects@[r]@)),
            funcs: Seq::new(self.funcs@.len(), |r: int| self.funcs@[r]@),
            scopes: Seq::new(self.scopes@.len(), |r: int| bindings(self.scopes@[r]@)),
            sealed: self.sealed as nat,
            output: self.output@,
            fuel: self.fuel as nat,
        }
    }
}

impl<'a> Machine<'a> {
    /// What a machine holds is counted in numbers of the machine.
    pub proof fn lemma_fits(&self)
        ensures
            self@.fits(),
    {
        assert(self.lists.len() == self.lists@.len());
        assert(self.objects.len() == self.objects@.len());
        assert(self.funcs.len() == self.funcs@.len());
        assert(self.scopes.len() == self.scopes@.len());
        assert forall|r: int| 0 <= r < self@.lists.len() implies (#[trigger] self@.lists[r]).len()
            <= usize::MAX by {
            assert(self.lists@[r].len() == self.lists@[r]@.len());
        }
        assert forall|r: int| 0 <= r < self@.funcs.len() implies (#[trigger] self@.funcs[r]).args.len()
            <= usize::MAX by {
            assert(self.funcs@[r].args.len() == self.funcs@[r].args@.len());
        }
    }

    /// A machine that holds nothing and may take `fuel` steps.
    pub fn new(fuel: u64) -> (m: Machine<'a>)
        ensures
            m@ == St::empty(fuel as nat),
            m@.wf(),
    {
        let m = Machine {
            lists: Vec::new(),
            objects: Vec::new(),
            funcs: Vec::new(),
            scopes: Vec::new(),
            sealed: 0,
            output: Vec::new(),
            fuel,
        };
        assert(m@.lists =~= Seq::empty());
        assert(m@.objects =~= Seq::empty());
        assert(m@.funcs =~= Seq::empty());
        assert(m@.scopes =~= Seq::empty());
        m
    }

    /// The number of steps left.
    pub fn fuel(&self) -> (n: u64)
        ensures
            n == self@.fuel,
    {
        self.fuel
    }

    /// Takes one step, if one is left, and says whether it was.
    pub fn tick(&mut self) -> (ok: bool)
        ensures
            ok == (old(self)@.fuel > 0),
            ok ==> final(self)@ == old(self)@.tick(),
            !ok ==> final(self)@ == old(self)@,
            old(self)@.wf() ==> final(self)@.wf(),
            old(self)@.grows_to(final(self)@),
            old(self)@.keeps_names(final(self)@, None),
    {
        if self.fuel == 0 {
            false
        } else {
            self.fuel = self.fuel - 1;
            proof {
                lemma_keeps_same_scopes(old(self)@, self@);
                assert(self@ =~= old(self)@.tick());
                if old(self)@.wf() {
                    lemma_tick_wf(old(self)@);
                }
            }
            true
        }
    }

    /// What has been written so far.
    pub fn output(&self) -> (out: &Vec<u8>)
        ensures
            out@ == self@.output,
    {
        &self.output
    }

    /// Writes `bytes`.
    pub fn emit(&mut self, bytes: &Vec<u8>)
        ensures
            final(self)@ == old(self)@.emit(bytes@),
            old(self)@.wf() ==> final(self)@.wf(),
            old(self)@.grows_to(final(self)@),
            old(self)@.keeps_names(final(self)@, None),
    {
        let mut i: usize = 0;
        while i < bytes.len()
            invariant
                i <= bytes.len(),
                self.lists == old(self).lists,
                self.objects == old(self).objects,
                self.funcs == old(self).funcs,
                self.scopes == old(self).scopes,
                self.sealed == old(self).sealed,
                self.fuel == old(self).fuel,
                self.output@ == old(self).output@ + bytes@.take(i as int),
            decreases bytes.len() - i,
        {
            self.output.push(bytes[i]);
            i = i + 1;
            assert(bytes@.take(i as int) =~= bytes@.take(i - 1).push(bytes@[i - 1]));
        }
        proof {
            assert(bytes@.take(i as int) =~= bytes@);
            lemma_keeps_same_scopes(old(self)@, self@);
            assert(self@ =~= old(self)@.emit(bytes@));
            if old(self)@.wf() {
                lemma_emit_wf(old(self)@, bytes@);
            }
        }
    }

    /// Stores a new list and returns its handle.
    pub fn alloc_list(&mut self, items: List) -> (r: ListRef)
        requires
            old(self)@.wf(),
            old(self)@.svals_ok(svals(items@)),
        ensures
            final(self)@ == old(self)@.with_list(svals(items@)),
            r == old(self)@.lists.len(),
            final(self)@.wf(),
            old(self)@.grows_to(final(self)@),
            old(self)@.keeps_names(final(self)@, None),
    {
        self.lists.push(items);
        proof {
            assert(self@.lists =~= old(self)@.lists.push(svals(items@)));
            assert(self@ =~= old(self)@.with_list(svals(items@)));
            self.lemma_fits();
            lemma_keeps_same_scopes(old(self)@, self@);
            lemma_with_list_wf(old(self)@, svals(items@));
        }
        self.lists.len() - 1
    }

    /// The number of items of list `r`.
    pub fn list_len(&self, r: ListRef) -> (n: usize)
        requires
            r < self@.lists.len(),
        ensures
            n == self@.lists[r as int].len(),
    {
        self.lists[r].len()
    }

    /// Item `i` of list `r`.
    pub fn list_get(&self, r: ListRef, i: usize) -> (v: SourcedValue)
        requires
            r < self@.lists.len(),
            i < self@.lists[r as int].len(),
        ensures
            v@ == self@.lists[r as int][i as int],
    {
        self.lists[r][i].clone()
    }

    /// The items of list `r` from `from` up to `to`.
    pub fn list_range(&self, r: ListRef, from: usize, to: usize) -> (v: List)
        requires
            r < self@.lists.len(),
            from <= to <= self@.lists[r as int].len(),
        ensures
            svals(v@) == self@.lists[r as int].subrange(from as int, to as int),
    {
        let mut out: Vec<SourcedValue> = Vec::new();
        let mut i: usize = from;
        while i < to
            invariant
                r < self.lists.len(),
                from <= i <= to <= self.lists[r as int].len(),
                out.len() == i - from,
                forall|j: int| 0 <= j < out.len() ==> out[j]@ == self.lists[r as int][from + j]@,
            decreases to - i,
        {
            out.push(self.lists[r][i].clone());
            i = i + 1;
        }
        assert(svals(out@) =~= self@.lists[r as int].subrange(from as int, to as int));
        out
    }

    /// Replaces item `i` of list `r` by `v`.
    pub fn list_set(&mut self, r: ListRef, i: usize, v: SourcedValue)
        requires
            old(self)@.wf(),
            r < old(self)@.lists.len(),
            i < old(self)@.lists[r as int].len(),
            old(self)@.sval_ok(v@),
        ensures
            final(self)@ == old(self)@.set_item(r as int, i as int, v@),
            final(self)@.wf(),
            old(self)@.grows_to(final(self)@),
            old(self)@.keeps_names(final(self)@, None),
    {
        self.lists[r][i] = v;
        proof {
            assert(self@.lists[r as int] =~= old(self)@.lists[r as int].update(i as int, v@));
            assert(self@.lists =~= old(self)@.set_item(r as int, i as int, v@).lists);
            assert(self@ =~= old(self)@.set_item(r as int, i as int, v@));
            lemma_keeps_same_scopes(old(self)@, self@);
            lemma_set_item_wf(old(self)@, r as int, i as int, v@);
        }
    }

    /// Stores a new object and returns its handle.
    pub fn alloc_object(&mut self, es: Object) -> (r: ObjectRef)
        requires
            old(self)@.wf(),
            sorted(props(es@)),
            old(self)@.props_ok(props(es@)),
        ensures
            final(self)@ == old(self)@.with_object(props(es@)),
            r == old(self)@.objects.len(),
            final(self)@.wf(),
            old(self)@.grows_to(final(self)@),
            old(self)@.keeps_names(final(self)@, None),
    {
        self.objects.push(es);
        proof {
            assert(self@.objects =~= old(self)@.objects.push(props(es@)));
            assert(self@ =~= old(self)@.with_object(props(es@)));
            self.lemma_fits();
            lemma_keeps_same_scopes(old(self)@, self@);
            lemma_with_object_wf(old(self)@, props(es@));
        }
        self.objects.len() - 1
    }

    /// The number of properties of object `r`.
    pub fn object_len(&self, r: ObjectRef) -> (n: usize)
        requires
            r < self@.objects.len(),
        ensures
            n == self@.objects[r as int].len(),
    {
        self.objects[r].len()
    }

    /// The key of property `i` of object `r`, counted in the order of keys.
    pub fn object_key(&self, r: ObjectRef, i: usize) -> (k: String)
        requires
            r < self@.objects.len(),
            i < self@.objects[r as int].len(),
        ensures
            k@ == self@.objects[r as int][i as int].0,
    {
        self.objects[r][i].0.clone()
    }

    /// The value of property `i` of object `r`, counted in the order of keys.
    pub fn object_value(&self, r: ObjectRef, i: usize) -> (v: SourcedValue)
        requires
            r < self@.objects.len(),
            i < self@.objects[r as int].len(),
        ensures
            v@ == self@.objects[r as int][i as int].1,
    {
        self.objects[r][i].1.clone()
    }

    /// What object `r` holds under `key`, if anything.
    pub fn object_get(&self, r: ObjectRef, key: &String) -> (v: Option<SourcedValue>)
        requires
            self@.wf(),
            r < self@.objects.len(),
        ensures
            crate::eval::value::opt_sval(v) == lookup(self@.objects[r as int], key@),
    {
        let es = &self.objects[r];
        let ghost model = self@.objects[r as int];
        let mut i: usize = 0;
        while i < es.len()
            invariant
                i <= es.len(),
                model == props(es@),
                r < self@.objects.len(),
                model == self@.objects[r as int],
                sorted(model),
                forall|j: int| 0 <= j < i ==> (#[trigger] model[j]).0 != key@,
            decreases es.len() - i,
        {
            if es[i].0 == *key {
                proof {
                    lemma_sorted_distinct(model);
                    lemma_key_index_is(model, key@, i as int);
                }
                return Some(es[i].1.clone());
            }
            i = i + 1;
        }
        None
    }

    /// Binds `key` to `v` in object `r`, which must not be sealed.
    pub fn object_put(&mut self, r: ObjectRef, key: String, v: SourcedValue)
        requires
            old(self)@.wf(),
            old(self)@.sealed <= r < old(self)@.objects.len(),
            old(self)@.sval_ok(v@),
        ensures
            final(self)@ == old(self)@.put_prop(r as int, key@, v@),
            final(self)@.wf(),
            old(self)@.grows_to(final(self)@),
            old(self)@.keeps_names(final(self)@, None),
    {
        let ghost kv = key@;
        let ghost vv = v@;
        assert(sorted(self@.objects[r as int]));
        put_entry(&mut self.objects[r], key, v);
        proof {
            assert(self@.objects =~= old(self)@.put_prop(r as int, kv, vv).objects);
            assert(self@ =~= old(self)@.put_prop(r as int, kv, vv));
            lemma_keeps_same_scopes(old(self)@, self@);
            lemma_put_prop_wf(old(self)@, r as int, kv, vv);
        }
    }

    /// Seals every object that there is: from now on none of them is
    /// changed, and no value names one.
    pub fn seal(&mut self)
        requires
            old(self)@.wf(),
            old(self)@.holds_no_object(),
        ensures
            final(self)@ == old(self)@.seal(),
            final(self)@.wf(),
    {
        self.sealed = self.objects.len();
        proof {
            assert(self@ =~= old(self)@.seal());
            crate::eval::state::lemma_seal_wf(old(self)@);
        }
    }

    /// Stores a new function and returns its handle.
    pub fn alloc_func(&mut self, f: Func<'a>) -> (r: FuncRef)
        requires
            old(self)@.wf(),
            old(self)@.stack_ok(f.closure@),
        ensures
            final(self)@ == old(self)@.with_func(f@),
            r == old(self)@.funcs.len(),
            final(self)@.wf(),
            old(self)@.grows_to(final(self)@),
            old(self)@.keeps_names(final(self)@, None),
    {
        let ghost fv = f@;
        self.funcs.push(f);
        proof {
            assert(self@.funcs =~= old(self)@.funcs.push(fv));
            assert(self@ =~= old(self)@.with_func(fv));
            self.lemma_fits();
            lemma_keeps_same_scopes(old(self)@, self@);
            lemma_with_func_wf(old(self)@, fv);
        }
        self.funcs.len() - 1
    }

    /// The function behind the handle `r`.
    pub fn func(&self, r: FuncRef) -> (f: &Func<'a>)
        requires
            r < self@.funcs.len(),
        ensures
            f@ == self@.funcs[r as int],
    {
        &self.funcs[r]
    }

    /// Stores a new scope and returns its handle.
    pub fn alloc_scope(&mut self, scope: Scope) -> (r: ScopeRef)
        requires
            old(self)@.wf(),
            distinct(bindings(scope@)),
            old(self)@.bindings_ok(bindings(scope@)),
        ensures
            final(self)@ == old(self)@.with_scope(bindings(scope@)),
            r == old(self)@.scopes.len(),
            final(self)@.wf(),
            old(self)@.grows_to(final(self)@),
            old(self)@.keeps_names(final(self)@, None),
    {
        self.scopes.push(scope);
        proof {
            assert(self@.scopes =~= old(self)@.scopes.push(bindings(scope@)));
            assert(self@ =~= old(self)@.with_scope(bindings(scope@)));
            self.lemma_fits();
            lemma_keeps_with_scope(old(self)@, bindings(scope@));
            lemma_with_scope_wf(old(self)@, bindings(scope@));
        }
        self.scopes.len() - 1
    }

    /// The numbers of scopes and of functions that the machine holds.
    pub fn mark(&self) -> (r: (usize, usize))
        ensures
            r.0 == self@.scopes.len(),
            r.1 == self@.funcs.len(),
    {
        (self.scopes.len(), self.funcs.len())
    }

    /// Gives back the scopes made since `mark` was taken, unless a function
    /// was made since: see [`St::released`].
    pub fn release(&mut self, mark: (usize, usize))
        ensures
            final(self)@ == old(self)@.released(mark.0 as nat, mark.1 as nat),
    {
        if self.funcs.len() == mark.1 {
            self.scopes.truncate(mark.0);
        }
        proof {
            let out = old(self)@.released(mark.0 as nat, mark.1 as nat);
            assert(self@.scopes =~= out.scopes);
            assert(self@ =~= out);
        }
    }

    /// The place of `name` in scope `s`, if the scope declares it.
    pub fn scope_find(&self, s: ScopeRef, name: &String) -> (r: Option<usize>)
        requires
            self@.wf(),
            s < self@.scopes.len(),
        ensures
            r is Some == has_key(self@.scopes[s as int], name@),
            r matches Some(i) ==> i == key_index(self@.scopes[s as int], name@) && i
                < self@.scopes[s as int].len(),
    {
        let es = &self.scopes[s];
        let ghost model = self@.scopes[s as int];
        let mut i: usize = 0;
        while i < es.len()
            invariant
                i <= es.len(),
                model == bindings(es@),
                s < self@.scopes.len(),
                model == self@.scopes[s as int],
                distinct(model),
                forall|j: int| 0 <= j < i ==> (#[trigger] model[j]).0 != name@,
            decreases es.len() - i,
        {
            if es[i].0 == *name {
                proof {
                    lemma_key_index_is(model, name@, i as int);
                }
                return Some(i);
            }
            i = i + 1;
        }
        None
    }

    /// The value of binding `i` of scope `s`.
    pub fn scope_value(&self, s: ScopeRef, i: usize) -> (v: SourcedValue)
        requires
            s < self@.scopes.len(),
            i < self@.scopes[s as int].len(),
        ensures
            v@ == self@.scopes[s as int][i as int].1.0,
    {
        self.scopes[s][i].1.0.clone()
    }

    /// The place where binding `i` of scope `s` was declared.
    pub fn scope_loc(&self, s: ScopeRef, i: usize) -> (loc: Location)
        requires
            s < self@.scopes.len(),
            i < self@.scopes[s as int].len(),
        ensures
            loc == self@.scopes[s as int][i as int].1.1,
    {
        self.scopes[s][i].1.1
    }

    /// Declares `name` in scope `s`.
    pub fn scope_declare(&mut self, s: ScopeRef, name: String, v: SourcedValue, loc: Location)
        requires
            old(self)@.wf(),
            s < old(self)@.scopes.len(),
            !has_key(old(self)@.scopes[s as int], name@),
            old(self)@.sval_ok(v@),
        ensures
            final(self)@ == old(self)@.declare(s as int, name@, v@, loc),
            final(self)@.wf(),
            old(self)@.grows_to(final(self)@),
            old(self)@.keeps_names(final(self)@, Some(s as int)),
    {
        let ghost nv = name@;
        let ghost vv = v@;
        self.scopes[s].push((name, (v, loc)));
        proof {
            assert(self@.scopes[s as int] =~= old(self)@.scopes[s as int].push((nv, (vv, loc))));
            assert(self@.scopes =~= old(self)@.declare(s as int, nv, vv, loc).scopes);
            assert(self@ =~= old(self)@.declare(s as int, nv, vv, loc));
            lemma_keeps_declare(old(self)@, s as int, nv, vv, loc);
            lemma_declare_wf(old(self)@, s as int, nv, vv, loc);
        }
    }

    /// Replaces the value of binding `i` of scope `s` by `v`.
    pub fn scope_set(&mut self, s: ScopeRef, i: usize, v: SourcedValue)
        requires
            old(self)@.wf(),
            s < old(self)@.scopes.len(),
            i < old(self)@.scopes[s as int].len(),
            old(self)@.sval_ok(v@),
        ensures
            final(self)@ == old(self)@.set_binding(s as int, i as int, v@),
            final(self)@.wf(),
            old(self)@.grows_to(final(self)@),
            old(self)@.keeps_names(final(self)@, None),
    {
        let ghost vv = v@;
        self.scopes[s][i].1.0 = v;
        proof {
            assert(self@.scopes[s as int] =~= old(self)@.set_binding(
                s as int,
                i as int,
                vv,
            ).scopes[s as int]);
            assert(self@.scopes =~= old(self)@.set_binding(s as int, i as int, vv).scopes);
            assert(self@ =~= old(self)@.set_binding(s as int, i as int, vv));
            lemma_keeps_set_binding(old(self)@, s as int, i as int, vv);
            lemma_set_binding_wf(old(self)@, s as int, i as int, vv);
        }
    }
}

} // verus!
