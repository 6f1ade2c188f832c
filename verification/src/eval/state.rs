//! The mathematical model of the machine: what its lists, objects, functions
//! and scopes hold, what it has written, and how many steps it has left.

use vstd::prelude::*;

use crate::ast::Expr;
use crate::ast::Location;
use crate::ast::Stmt;
use crate::eval::error::Failure;
use crate::eval::order::key_lt;
use crate::eval::order::lemma_key_lt_irreflexive;
use crate::eval::order::lemma_key_lt_total;
use crate::eval::order::lemma_key_lt_transitive;
use crate::eval::value::SVal;
use crate::eval::value::Val;

verus! {

/// What a user function stands for.
pub struct FuncView {
    pub name: Option<Seq<char>>,
    pub args: Seq<Expr>,
    pub collect_args: bool,
    pub stmts: Seq<Stmt>,
    /// The scopes the function was made in, outermost first.
    pub closure: Seq<usize>,
}

/// The properties of an object, or the names of a scope: keys with what they
/// are bound to.
pub type Entries<V> = Seq<(Seq<char>, V)>;

/// Whether some entry has the key `key`.
pub open spec fn has_key<V>(es: Entries<V>, key: Seq<char>) -> bool {
    exists|i: int| 0 <= i < es.len() && (#[trigger] es[i]).0 == key
}

/// The place of an entry with the key `key`.
pub open spec fn key_index<V>(es: Entries<V>, key: Seq<char>) -> int {
    choose|i: int| 0 <= i < es.len() && (#[trigger] es[i]).0 == key
}

/// What `key` is bound to, if it is bound.
pub open spec fn lookup<V>(es: Entries<V>, key: Seq<char>) -> Option<V> {
    if has_key(es, key) {
        Some(es[key_index(es, key)].1)
    } else {
        None
    }
}

/// No key occurs twice.
pub open spec fn distinct<V>(es: Entries<V>) -> bool {
    forall|i: int, j: int|
        0 <= i < es.len() && 0 <= j < es.len() && i != j ==> (#[trigger] es[i]).0 != (
        #[trigger] es[j]).0
}

/// The keys stand in strictly increasing order.
pub open spec fn sorted<V>(es: Entries<V>) -> bool {
    forall|i: int, j: int|
        0 <= i < j < es.len() ==> key_lt((#[trigger] es[i]).0, (#[trigger] es[j]).0)
}

/// `p` is where `key` belongs in `es`: the keys before `p` come before
/// `key`, the others do not.
pub open spec fn is_rank<V>(es: Entries<V>, key: Seq<char>, p: int) -> bool {
    &&& 0 <= p <= es.len()
    &&& forall|i: int| 0 <= i < p ==> key_lt((#[trigger] es[i]).0, key)
    &&& forall|i: int| p <= i < es.len() ==> !key_lt((#[trigger] es[i]).0, key)
}

/// The place where `key` belongs in the sorted `es`.
pub open spec fn rank<V>(es: Entries<V>, key: Seq<char>) -> int {
    choose|p: int| is_rank(es, key, p)
}

/// `es` with `key` bound to `v`: in place of its old binding, or else put in
/// where the order of the keys asks for it.
pub open spec fn put<V>(es: Entries<V>, key: Seq<char>, v: V) -> Entries<V> {
    let p = rank(es, key);
    if p < es.len() && es[p].0 == key {
        es.update(p, (key, v))
    } else {
        es.insert(p, (key, v))
    }
}

/// `es` with the entries of `more` from `i` on put in, one after the other:
/// where a key comes twice, the later value stays.
pub open spec fn put_all<V>(es: Entries<V>, more: Entries<V>, i: int) -> Entries<V>
    decreases more.len() - i,
{
    if i < 0 || i >= more.len() {
        es
    } else {
        put_all(put(es, more[i].0, more[i].1), more, i + 1)
    }
}

pub proof fn lemma_rank_unique<V>(es: Entries<V>, key: Seq<char>, p: int, q: int)
    requires
        is_rank(es, key, p),
        is_rank(es, key, q),
    ensures
        p == q,
{
    if p < q {
        assert(key_lt(es[p].0, key));
    } else if q < p {
        assert(key_lt(es[q].0, key));
    }
}

/// In a sorted sequence the rank of a key is the one place that fits it.
pub proof fn lemma_rank_is<V>(es: Entries<V>, key: Seq<char>, p: int)
    requires
        is_rank(es, key, p),
    ensures
        rank(es, key) == p,
{
    lemma_rank_unique(es, key, p, rank(es, key));
}

pub proof fn lemma_sorted_distinct<V>(es: Entries<V>)
    requires
        sorted(es),
    ensures
        distinct(es),
{
    assert forall|i: int, j: int|
        0 <= i < es.len() && 0 <= j < es.len() && i != j implies (#[trigger] es[i]).0 != (
    #[trigger] es[j]).0 by {
        lemma_key_lt_irreflexive(es[i].0);
    }
}

/// Where keys are distinct, the place of a key is the one place that holds
/// it.
pub proof fn lemma_key_index_is<V>(es: Entries<V>, key: Seq<char>, i: int)
    requires
        distinct(es),
        0 <= i < es.len(),
        es[i].0 == key,
    ensures
        has_key(es, key),
        key_index(es, key) == i,
        lookup(es, key) == Some(es[i].1),
{
}

/// In a sorted sequence a key is present exactly if it stands at its rank.
pub proof fn lemma_has_key_at_rank<V>(es: Entries<V>, key: Seq<char>, p: int)
    requires
        sorted(es),
        is_rank(es, key, p),
    ensures
        has_key(es, key) <==> (p < es.len() && es[p].0 == key),
        has_key(es, key) ==> key_index(es, key) == p,
{
    lemma_sorted_distinct(es);
    if has_key(es, key) {
        let i = key_index(es, key);
        lemma_key_lt_irreflexive(key);
        if i < p {
            assert(key_lt(es[i].0, key));
        } else if i > p {
            assert(key_lt(es[p].0, es[i].0));
            assert(!key_lt(es[p].0, key));
        }
    }
}

/// Putting a key into a sorted sequence leaves it sorted, binds the key, and
/// leaves every other key bound as it was.
pub proof fn lemma_put<V>(es: Entries<V>, key: Seq<char>, v: V)
    requires
        sorted(es),
    ensures
        is_rank(es, key, rank(es, key)),
        sorted(put(es, key, v)),
        lookup(put(es, key, v), key) == Some(v),
        forall|k: Seq<char>| k != key ==> lookup(put(es, key, v), k) == lookup(es, k),
        has_key(es, key) ==> put(es, key, v).len() == es.len(),
        !has_key(es, key) ==> put(es, key, v).len() == es.len() + 1,
{
    lemma_rank_exists(es, key);
    let p = rank(es, key);
    let out = put(es, key, v);
    lemma_has_key_at_rank(es, key, p);
    assert forall|i: int, j: int| 0 <= i < j < out.len() implies key_lt(
        (#[trigger] out[i]).0,
        (#[trigger] out[j]).0,
    ) by {
        if p < es.len() && es[p].0 == key {
            assert(out[i].0 == es[i].0 && out[j].0 == es[j].0);
        } else {
            let oi = if i < p { i } else { i - 1 };
            let oj = if j < p { j } else { j - 1 };
            if i == p {
                assert(out[j] == es[oj]);
                assert(!key_lt(es[oj].0, key));
                lemma_key_lt_total(es[oj].0, key);
                if es[oj].0 == key {
                    assert(!key_lt(es[p].0, key));
                    lemma_key_lt_total(es[p].0, key);
                    if oj > p {
                        assert(key_lt(es[p].0, es[oj].0));
                        lemma_key_lt_irreflexive(key);
                        if key_lt(key, es[p].0) {
                            lemma_key_lt_transitive(key, es[p].0, es[oj].0);
                        }
                    }
                }
            } else if j == p {
                assert(out[i] == es[oi]);
            } else {
                assert(out[i] == es[oi] && out[j] == es[oj]);
            }
        }
    }
    lemma_sorted_distinct(out);
    if p < es.len() && es[p].0 == key {
        lemma_key_index_is(out, key, p);
    } else {
        assert(out[p] == (key, v));
        lemma_key_index_is(out, key, p);
    }
    lemma_sorted_distinct(es);
    assert forall|k: Seq<char>| k != key implies lookup(out, k) == lookup(es, k) by {
        if has_key(es, k) {
            let i = key_index(es, k);
            if p < es.len() && es[p].0 == key {
                assert(out[i] == es[i]);
                lemma_key_index_is(out, k, i);
            } else {
                let ni = if i < p { i } else { i + 1 };
                assert(out[ni] == es[i]);
                lemma_key_index_is(out, k, ni);
            }
        } else if has_key(out, k) {
            let i = key_index(out, k);
            if p < es.len() && es[p].0 == key {
                assert(out[i].0 == es[i].0);
            } else {
                let oi = if i < p { i } else { i - 1 };
                assert(out[i] == es[oi]);
            }
        }
    }
}

/// Every key has a rank in a sorted sequence.
pub proof fn lemma_rank_exists<V>(es: Entries<V>, key: Seq<char>)
    requires
        sorted(es),
    ensures
        is_rank(es, key, rank(es, key)),
    decreases es.len(),
{
    if es.len() == 0 {
        assert(is_rank(es, key, 0));
    } else {
        let last = es.len() - 1;
        let front = es.drop_last();
        assert(sorted(front)) by {
            assert forall|i: int, j: int| 0 <= i < j < front.len() implies key_lt(
                (#[trigger] front[i]).0,
                (#[trigger] front[j]).0,
            ) by {
                assert(front[i] == es[i] && front[j] == es[j]);
            }
        }
        lemma_rank_exists(front, key);
        let p = rank(front, key);
        if key_lt(es[last].0, key) {
            assert forall|i: int| 0 <= i < es.len() implies key_lt((#[trigger] es[i]).0, key) by {
                if i < last {
                    assert(key_lt(es[i].0, es[last].0));
                    lemma_key_lt_transitive(es[i].0, es[last].0, key);
                }
            }
            assert(is_rank(es, key, es.len() as int));
        } else {
            assert forall|i: int| 0 <= i < p implies key_lt((#[trigger] es[i]).0, key) by {
                assert(front[i] == es[i]);
            }
            assert forall|i: int| p <= i < es.len() implies !key_lt((#[trigger] es[i]).0, key) by {
                if i < last {
                    assert(front[i] == es[i]);
                }
            }
            assert(is_rank(es, key, p));
        }
    }
}

/// The state of the machine.
pub struct St {
    /// The lists, by handle.
    pub lists: Seq<Seq<SVal>>,
    /// The objects, by handle.
    pub objects: Seq<Entries<SVal>>,
    /// The user functions, by handle.
    pub funcs: Seq<FuncView>,
    /// The scopes, by handle: each name with its value and the place where
    /// it was declared.
    pub scopes: Seq<Entries<(SVal, Location)>>,
    /// The number of sealed objects: the objects whose handle is below it
    /// are never changed, and no value holds the handle of one.
    pub sealed: nat,
    /// The bytes written so far.
    pub output: Seq<u8>,
    /// The number of steps left.
    pub fuel: nat,
}

impl St {
    /// A machine that holds nothing and has `fuel` steps to take.
    pub open spec fn empty(fuel: nat) -> St {
        St {
            lists: Seq::empty(),
            objects: Seq::empty(),
            funcs: Seq::empty(),
            scopes: Seq::empty(),
            sealed: 0,
            output: Seq::empty(),
            fuel,
        }
    }

    /// Whether the handle in `v`, if it holds one, names something that a
    /// value may name: a list, a function, or an object that is not sealed.
    pub open spec fn val_ok(self, v: Val) -> bool {
        match v {
            Val::List(r) => r < self.lists.len(),
            Val::Object(r) => self.sealed <= r < self.objects.len(),
            Val::Func(r) => r < self.funcs.len(),
            _ => true,
        }
    }

    pub open spec fn sval_ok(self, v: SVal) -> bool {
        &&& self.val_ok(v.v)
        &&& v.source matches Some(s) ==> self.val_ok(s)
    }

    pub open spec fn svals_ok(self, items: Seq<SVal>) -> bool {
        forall|i: int| 0 <= i < items.len() ==> self.sval_ok(#[trigger] items[i])
    }

    pub open spec fn props_ok(self, es: Entries<SVal>) -> bool {
        forall|i: int| 0 <= i < es.len() ==> self.sval_ok((#[trigger] es[i]).1)
    }

    pub open spec fn bindings_ok(self, es: Entries<(SVal, Location)>) -> bool {
        forall|i: int| 0 <= i < es.len() ==> self.sval_ok((#[trigger] es[i]).1.0)
    }

    /// Whether every handle in `stack` names a scope.
    pub open spec fn stack_ok(self, stack: Seq<usize>) -> bool {
        forall|i: int| 0 <= i < stack.len() ==> (#[trigger] stack[i]) < self.scopes.len()
    }

    /// Whether a machine can hold this state. A handle is the number of
    /// lists, objects, functions or scopes made before, and lengths are
    /// handed about as numbers of the machine: so the numbers of lists,
    /// objects, functions and scopes, the length of every list and the
    /// number of parameters of every function are at most `usize::MAX`.
    pub open spec fn fits(self) -> bool {
        &&& self.lists.len() <= usize::MAX
        &&& self.objects.len() <= usize::MAX
        &&& self.funcs.len() <= usize::MAX
        &&& self.scopes.len() <= usize::MAX
        &&& forall|r: int|
            0 <= r < self.lists.len() ==> (#[trigger] self.lists[r]).len() <= usize::MAX
        &&& forall|r: int|
            0 <= r < self.funcs.len() ==> (#[trigger] self.funcs[r]).args.len() <= usize::MAX
    }

    /// Whether a machine can hold this state, every handle held anywhere in
    /// it names something, every object keeps its keys sorted, and no scope
    /// declares a name twice.
    pub open spec fn wf(self) -> bool {
        &&& self.fits()
        &&& self.sealed <= self.objects.len()
        &&& forall|r: int| 0 <= r < self.lists.len() ==> self.svals_ok(#[trigger] self.lists[r])
        &&& forall|r: int|
            0 <= r < self.objects.len() ==> sorted(#[trigger] self.objects[r]) && self.props_ok(
                self.objects[r],
            )
        &&& forall|r: int|
            0 <= r < self.funcs.len() ==> self.stack_ok((#[trigger] self.funcs[r]).closure)
        &&& forall|r: int|
            0 <= r < self.scopes.len() ==> distinct(#[trigger] self.scopes[r])
                && self.bindings_ok(self.scopes[r])
    }

    /// Whether `later` holds at least the lists, objects, functions and
    /// scopes of this state, so that every handle good here is good there,
    /// with every list as long as it was, every function and every sealed
    /// object as it was, and has no more steps left than this state has.
    pub open spec fn grows_to(self, later: St) -> bool {
        &&& later.sealed == self.sealed
        &&& forall|r: int| 0 <= r < self.funcs.len() ==> #[trigger] later.funcs[r] == self.funcs[r]
        &&& forall|r: int| 0 <= r < self.sealed ==> #[trigger] later.objects[r] == self.objects[r]
        &&& self.lists.len() <= later.lists.len()
        &&& self.objects.len() <= later.objects.len()
        &&& self.funcs.len() <= later.funcs.len()
        &&& self.scopes.len() <= later.scopes.len()
        &&& later.fuel <= self.fuel
        &&& forall|r: int|
            0 <= r < self.lists.len() ==> (#[trigger] later.lists[r]).len() == self.lists[r].len()
    }

    /// This state with `fuel` steps left.
    pub open spec fn with_fuel(self, fuel: nat) -> St {
        St { fuel, ..self }
    }

    /// One step taken, where one is left.
    pub open spec fn tick(self) -> St {
        if self.fuel > 0 {
            self.with_fuel((self.fuel - 1) as nat)
        } else {
            self
        }
    }

    /// A new list holding `items`; its handle is the old number of lists.
    pub open spec fn with_list(self, items: Seq<SVal>) -> St {
        St { lists: self.lists.push(items), ..self }
    }

    /// Item `i` of list `r` replaced by `v`.
    pub open spec fn set_item(self, r: int, i: int, v: SVal) -> St {
        St { lists: self.lists.update(r, self.lists[r].update(i, v)), ..self }
    }

    /// A new object holding `es`; its handle is the old number of objects.
    pub open spec fn with_object(self, es: Entries<SVal>) -> St {
        St { objects: self.objects.push(es), ..self }
    }

    /// Object `r` with `key` bound to `v`.
    pub open spec fn put_prop(self, r: int, key: Seq<char>, v: SVal) -> St {
        St { objects: self.objects.update(r, put(self.objects[r], key, v)), ..self }
    }

    /// A new function; its handle is the old number of functions.
    pub open spec fn with_func(self, f: FuncView) -> St {
        St { funcs: self.funcs.push(f), ..self }
    }

    /// A new scope holding `es`; its handle is the old number of scopes.
    pub open spec fn with_scope(self, es: Entries<(SVal, Location)>) -> St {
        St { scopes: self.scopes.push(es), ..self }
    }

    /// Scope `s` with `name` declared last, bound to `v`.
    pub open spec fn declare(self, s: int, name: Seq<char>, v: SVal, loc: Location) -> St {
        St { scopes: self.scopes.update(s, self.scopes[s].push((name, (v, loc)))), ..self }
    }

    /// Scope `s` with its binding `i` holding `v`, declared where it was.
    pub open spec fn set_binding(self, s: int, i: int, v: SVal) -> St {
        St {
            scopes: self.scopes.update(
                s,
                self.scopes[s].update(i, (self.scopes[s][i].0, (v, self.scopes[s][i].1.1))),
            ),
            ..self
        }
    }

    /// This state once a block, a turn of a loop or a call that began with
    /// `scopes` scopes and `funcs` functions is over. If no function was
    /// made since, nothing can reach the scopes made since: they are given
    /// back, and their handles are free again. A function made since may
    /// have captured them, and then all of them stay.
    pub open spec fn released(self, scopes: nat, funcs: nat) -> St {
        if self.funcs.len() == funcs && scopes <= self.scopes.len() {
            St { scopes: self.scopes.take(scopes as int), ..self }
        } else {
            self
        }
    }

    /// Every object that there is sealed.
    pub open spec fn seal(self) -> St {
        St { sealed: self.objects.len(), ..self }
    }

    /// Whether no value that the machine holds is an object or was read from
    /// one.
    pub open spec fn holds_no_object(self) -> bool {
        &&& forall|r: int, i: int|
            0 <= r < self.lists.len() && 0 <= i < self.lists[r].len() ==> no_object(
                #[trigger] self.lists[r][i],
            )
        &&& forall|r: int, i: int|
            0 <= r < self.objects.len() && 0 <= i < self.objects[r].len() ==> no_object(
                (#[trigger] self.objects[r][i]).1,
            )
        &&& forall|r: int, i: int|
            0 <= r < self.scopes.len() && 0 <= i < self.scopes[r].len() ==> no_object(
                (#[trigger] self.scopes[r][i]).1.0,
            )
    }

    /// `bytes` written after what was written before.
    pub open spec fn emit(self, bytes: Seq<u8>) -> St {
        St { output: self.output + bytes, ..self }
    }
}

/// The names that scope `s` of `st` declares, in the order in which they
/// were declared.
#[verifier::opaque]
pub open spec fn scope_names(st: St, s: int) -> Seq<Seq<char>> {
    Seq::new(st.scopes[s].len(), |i: int| st.scopes[s][i].0)
}

/// The innermost scope of `stack`, if it has one.
pub open spec fn innermost(stack: Seq<usize>) -> Option<int> {
    if stack.len() > 0 {
        Some(stack.last() as int)
    } else {
        None
    }
}

impl St {
    /// Whether every scope of this state declares in `later` the names that
    /// it declares here, no more and no others, but for the scope `top`, of
    /// which nothing is said.
    pub open spec fn keeps_names(self, later: St, top: Option<int>) -> bool {
        forall|s: int|
            0 <= s < self.scopes.len() && top != Some(s) ==> #[trigger] scope_names(later, s)
                == scope_names(self, s)
    }
}

/// Giving back the scopes made since `before` leaves the machine
/// well-formed and takes nothing from what `before` held.
pub proof fn lemma_released(before: St, later: St)
    requires
        before.wf(),
        later.wf(),
        before.grows_to(later),
    ensures
        later.released(before.scopes.len(), before.funcs.len()).wf(),
        before.grows_to(later.released(before.scopes.len(), before.funcs.len())),
        forall|top: Option<int>|
            before.keeps_names(later, top) ==> #[trigger] before.keeps_names(
                later.released(before.scopes.len(), before.funcs.len()),
                top,
            ),
{
    reveal(scope_names);
    let out = later.released(before.scopes.len(), before.funcs.len());
    if later.funcs.len() == before.funcs.len() {
        assert forall|r: int| 0 <= r < out.lists.len() implies out.svals_ok(#[trigger] out.lists[r]) by {
            assert(later.svals_ok(later.lists[r]));
            assert forall|i: int| 0 <= i < out.lists[r].len() implies out.sval_ok(
                #[trigger] out.lists[r][i],
            ) by {
                assert(later.sval_ok(later.lists[r][i]));
            }
        }
        assert forall|r: int| 0 <= r < out.objects.len() implies sorted(#[trigger] out.objects[r])
            && out.props_ok(out.objects[r]) by {
            assert(later.props_ok(later.objects[r]));
            assert forall|i: int| 0 <= i < out.objects[r].len() implies out.sval_ok(
                (#[trigger] out.objects[r][i]).1,
            ) by {
                assert(later.sval_ok(later.objects[r][i].1));
            }
        }
        assert forall|r: int| 0 <= r < out.funcs.len() implies out.stack_ok(
            (#[trigger] out.funcs[r]).closure,
        ) by {
            assert(later.funcs[r] == before.funcs[r]);
            assert(before.stack_ok(before.funcs[r].closure));
        }
        assert forall|r: int| 0 <= r < out.scopes.len() implies distinct(#[trigger] out.scopes[r])
            && out.bindings_ok(out.scopes[r]) by {
            assert(out.scopes[r] == later.scopes[r]);
            assert(later.bindings_ok(later.scopes[r]));
            assert forall|i: int| 0 <= i < out.scopes[r].len() implies out.sval_ok(
                (#[trigger] out.scopes[r][i]).1.0,
            ) by {
                assert(later.sval_ok(later.scopes[r][i].1.0));
            }
        }
        assert forall|top: Option<int>| before.keeps_names(later, top) implies #[trigger] before.keeps_names(
            out,
            top,
        ) by {
            assert forall|q: int| 0 <= q < before.scopes.len() && top != Some(q) implies #[trigger] scope_names(
                out,
                q,
            ) == scope_names(before, q) by {
                assert(out.scopes[q] == later.scopes[q]);
                assert(scope_names(later, q) == scope_names(before, q));
            }
        }
    }
}

/// A change that leaves the scopes alone keeps their names.
pub proof fn lemma_keeps_same_scopes(a: St, b: St)
    requires
        a.scopes == b.scopes,
    ensures
        a.keeps_names(b, None),
{
    reveal(scope_names);
}

/// A new scope leaves the names of the others alone.
pub proof fn lemma_keeps_with_scope(st: St, es: Entries<(SVal, Location)>)
    ensures
        st.keeps_names(st.with_scope(es), None),
{
    reveal(scope_names);
}

/// A declaration in scope `s` leaves the names of the others alone.
pub proof fn lemma_keeps_declare(st: St, s: int, name: Seq<char>, v: SVal, loc: Location)
    requires
        0 <= s < st.scopes.len(),
    ensures
        st.keeps_names(st.declare(s, name, v, loc), Some(s)),
{
    reveal(scope_names);
}

/// A new value for a name leaves every name as it is.
pub proof fn lemma_keeps_set_binding(st: St, s: int, i: int, v: SVal)
    requires
        0 <= s < st.scopes.len(),
        0 <= i < st.scopes[s].len(),
    ensures
        st.keeps_names(st.set_binding(s, i, v), None),
{
    reveal(scope_names);
    let out = st.set_binding(s, i, v);
    assert forall|q: int| 0 <= q < st.scopes.len() implies #[trigger] scope_names(out, q)
        == scope_names(st, q) by {
        assert(scope_names(out, q) =~= scope_names(st, q));
    }
}

/// Whether `v` neither is an object nor was read from one.
pub open spec fn no_object(v: SVal) -> bool {
    &&& !(v.v is Object)
    &&& v.source matches Some(s) ==> !(s is Object)
}

/// A state with what came out of a step taken from it.
pub type Out<T> = (St, Result<T, Failure>);

/// What came out of a step taken from `st`, read so that the step added no
/// steps. No step does, as [`crate::eval::steps`] shows, and so this is the
/// outcome itself: it only makes that plain where a definition is read
/// before anything is proved of it.
pub open spec fn after<T>(st: St, out: Out<T>) -> Out<T> {
    if out.0.fuel <= st.fuel {
        out
    } else {
        (out.0.with_fuel(st.fuel), out.1)
    }
}

/// A value good in a state is good in every state it grows to.
pub proof fn lemma_grows_sval_ok(a: St, b: St, v: SVal)
    requires
        a.grows_to(b),
        a.sval_ok(v),
    ensures
        b.sval_ok(v),
{
}

/// What good properties hold under a key is good.
pub proof fn lemma_lookup_ok(st: St, es: Entries<SVal>, key: Seq<char>)
    requires
        st.props_ok(es),
    ensures
        lookup(es, key) matches Some(v) ==> st.sval_ok(v),
{
    if has_key(es, key) {
        assert(st.sval_ok(es[key_index(es, key)].1));
    }
}

pub proof fn lemma_grows_svals_ok(a: St, b: St, items: Seq<SVal>)
    requires
        a.grows_to(b),
        a.svals_ok(items),
    ensures
        b.svals_ok(items),
{
    assert forall|i: int| 0 <= i < items.len() implies b.sval_ok(#[trigger] items[i]) by {
        lemma_grows_sval_ok(a, b, items[i]);
    }
}

pub proof fn lemma_grows_props_ok(a: St, b: St, es: Entries<SVal>)
    requires
        a.grows_to(b),
        a.props_ok(es),
    ensures
        b.props_ok(es),
{
    assert forall|i: int| 0 <= i < es.len() implies b.sval_ok((#[trigger] es[i]).1) by {
        lemma_grows_sval_ok(a, b, es[i].1);
    }
}

pub proof fn lemma_grows_transitive(a: St, b: St, c: St)
    requires
        a.grows_to(b),
        b.grows_to(c),
    ensures
        a.grows_to(c),
{
}

/// Each change of the state keeps it well-formed, given good arguments, and
/// takes none of its handles away.
pub proof fn lemma_tick_wf(st: St)
    requires
        st.wf(),
        st.fuel > 0,
    ensures
        st.tick().wf(),
        st.grows_to(st.tick()),
{
    lemma_same_dims_wf(st, st.tick());
}

/// Well-formedness looks at the lists, objects, functions and scopes alone.
pub proof fn lemma_same_dims_wf(a: St, b: St)
    requires
        a.wf(),
        a.lists == b.lists,
        a.objects == b.objects,
        a.funcs == b.funcs,
        a.scopes == b.scopes,
        a.sealed == b.sealed,
    ensures
        b.wf(),
{
    assert forall|r: int| 0 <= r < b.lists.len() implies b.svals_ok(#[trigger] b.lists[r]) by {
        assert(a.svals_ok(a.lists[r]));
        assert forall|i: int| 0 <= i < b.lists[r].len() implies b.sval_ok(
            #[trigger] b.lists[r][i],
        ) by {
            assert(a.sval_ok(a.lists[r][i]));
        }
    }
    assert forall|r: int| 0 <= r < b.objects.len() implies sorted(#[trigger] b.objects[r])
        && b.props_ok(b.objects[r]) by {
        assert(a.props_ok(a.objects[r]));
        assert forall|i: int| 0 <= i < b.objects[r].len() implies b.sval_ok(
            (#[trigger] b.objects[r][i]).1,
        ) by {
            assert(a.sval_ok(a.objects[r][i].1));
        }
    }
    assert forall|r: int| 0 <= r < b.funcs.len() implies b.stack_ok(
        (#[trigger] b.funcs[r]).closure,
    ) by {
        assert(a.stack_ok(a.funcs[r].closure));
    }
    assert forall|r: int| 0 <= r < b.scopes.len() implies distinct(#[trigger] b.scopes[r])
        && b.bindings_ok(b.scopes[r]) by {
        assert(a.bindings_ok(a.scopes[r]));
        assert forall|i: int| 0 <= i < b.scopes[r].len() implies b.sval_ok(
            (#[trigger] b.scopes[r][i]).1.0,
        ) by {
            assert(a.sval_ok(a.scopes[r][i].1.0));
        }
    }
}

/// What was well-formed stays so when the machine only gains handles: the
/// parts of `b` that `a` already had are good in `b`.
pub proof fn lemma_grown_parts_ok(a: St, b: St)
    requires
        a.wf(),
        a.grows_to(b),
    ensures
        forall|r: int| 0 <= r < a.lists.len() ==> b.svals_ok(#[trigger] a.lists[r]),
        forall|r: int| 0 <= r < a.objects.len() ==> b.props_ok(#[trigger] a.objects[r]),
        forall|r: int| 0 <= r < a.funcs.len() ==> b.stack_ok((#[trigger] a.funcs[r]).closure),
        forall|r: int| 0 <= r < a.scopes.len() ==> b.bindings_ok(#[trigger] a.scopes[r]),
{
    assert forall|r: int| 0 <= r < a.lists.len() implies b.svals_ok(#[trigger] a.lists[r]) by {
        assert(a.svals_ok(a.lists[r]));
        lemma_grows_svals_ok(a, b, a.lists[r]);
    }
    assert forall|r: int| 0 <= r < a.objects.len() implies b.props_ok(#[trigger] a.objects[r]) by {
        assert(a.props_ok(a.objects[r]));
        assert forall|i: int| 0 <= i < a.objects[r].len() implies b.sval_ok(
            (#[trigger] a.objects[r][i]).1,
        ) by {
            assert(a.sval_ok(a.objects[r][i].1));
        }
    }
    assert forall|r: int| 0 <= r < a.funcs.len() implies b.stack_ok(
        (#[trigger] a.funcs[r]).closure,
    ) by {
        assert(a.stack_ok(a.funcs[r].closure));
    }
    assert forall|r: int| 0 <= r < a.scopes.len() implies b.bindings_ok(#[trigger] a.scopes[r]) by {
        assert(a.bindings_ok(a.scopes[r]));
        assert forall|i: int| 0 <= i < a.scopes[r].len() implies b.sval_ok(
            (#[trigger] a.scopes[r][i]).1.0,
        ) by {
            assert(a.sval_ok(a.scopes[r][i].1.0));
        }
    }
}

pub proof fn lemma_emit_wf(st: St, bytes: Seq<u8>)
    requires
        st.wf(),
    ensures
        st.emit(bytes).wf(),
        st.grows_to(st.emit(bytes)),
{
    lemma_same_dims_wf(st, st.emit(bytes));
}

pub proof fn lemma_with_list_wf(st: St, items: Seq<SVal>)
    requires
        st.wf(),
        st.with_list(items).fits(),
        st.svals_ok(items),
    ensures
        st.with_list(items).wf(),
        st.grows_to(st.with_list(items)),
{
    let out = st.with_list(items);
    lemma_grown_parts_ok(st, out);
    lemma_grows_svals_ok(st, out, items);
    assert forall|r: int| 0 <= r < out.lists.len() implies out.svals_ok(#[trigger] out.lists[r]) by {
        if r < st.lists.len() {
            assert(out.lists[r] == st.lists[r]);
        }
    }
}

pub proof fn lemma_set_item_wf(st: St, r: int, i: int, v: SVal)
    requires
        st.wf(),
        0 <= r < st.lists.len(),
        0 <= i < st.lists[r].len(),
        st.sval_ok(v),
    ensures
        st.set_item(r, i, v).wf(),
        st.grows_to(st.set_item(r, i, v)),
{
    let out = st.set_item(r, i, v);
    lemma_grown_parts_ok(st, out);
    assert forall|q: int| 0 <= q < out.lists.len() implies out.svals_ok(#[trigger] out.lists[q]) by {
        if q == r {
            assert forall|j: int| 0 <= j < out.lists[q].len() implies out.sval_ok(
                #[trigger] out.lists[q][j],
            ) by {
                if j != i {
                    assert(st.svals_ok(st.lists[r]));
                    assert(st.sval_ok(st.lists[r][j]));
                }
            }
        } else {
            assert(out.lists[q] == st.lists[q]);
        }
    }
}

pub proof fn lemma_with_object_wf(st: St, es: Entries<SVal>)
    requires
        st.wf(),
        st.with_object(es).fits(),
        sorted(es),
        st.props_ok(es),
    ensures
        st.with_object(es).wf(),
        st.grows_to(st.with_object(es)),
{
    let out = st.with_object(es);
    lemma_grown_parts_ok(st, out);
    assert forall|r: int| 0 <= r < out.objects.len() implies sorted(#[trigger] out.objects[r])
        && out.props_ok(out.objects[r]) by {
        if r < st.objects.len() {
            assert(out.objects[r] == st.objects[r]);
        } else {
            assert forall|i: int| 0 <= i < es.len() implies out.sval_ok((#[trigger] es[i]).1) by {
                assert(st.sval_ok(es[i].1));
            }
        }
    }
}

/// Putting a good value into good properties leaves them good.
pub proof fn lemma_put_props_ok(st: St, es: Entries<SVal>, key: Seq<char>, v: SVal)
    requires
        sorted(es),
        st.props_ok(es),
        st.sval_ok(v),
    ensures
        st.props_ok(put(es, key, v)),
{
    lemma_rank_exists(es, key);
    let p = rank(es, key);
    let out = put(es, key, v);
    assert forall|i: int| 0 <= i < out.len() implies st.sval_ok((#[trigger] out[i]).1) by {
        if p < es.len() && es[p].0 == key {
            if i != p {
                assert(out[i] == es[i]);
            }
        } else {
            if i < p {
                assert(out[i] == es[i]);
            } else if i > p {
                assert(out[i] == es[i - 1]);
            }
        }
    }
}

/// Whether no value of `es` is an object or was read from one.
pub open spec fn props_hold_no_object(es: Entries<SVal>) -> bool {
    forall|i: int| 0 <= i < es.len() ==> no_object((#[trigger] es[i]).1)
}

/// Putting a value that is no object into properties that hold none leaves
/// them holding none.
pub proof fn lemma_put_no_object(es: Entries<SVal>, key: Seq<char>, v: SVal)
    requires
        sorted(es),
        props_hold_no_object(es),
        no_object(v),
    ensures
        props_hold_no_object(put(es, key, v)),
{
    lemma_rank_exists(es, key);
    let p = rank(es, key);
    let out = put(es, key, v);
    assert forall|i: int| 0 <= i < out.len() implies no_object((#[trigger] out[i]).1) by {
        if p < es.len() && es[p].0 == key {
            if i != p {
                assert(out[i] == es[i]);
            }
        } else {
            if i < p {
                assert(out[i] == es[i]);
            } else if i > p {
                assert(out[i] == es[i - 1]);
            }
        }
    }
}

pub proof fn lemma_put_prop_wf(st: St, r: int, key: Seq<char>, v: SVal)
    requires
        st.wf(),
        st.sealed <= r < st.objects.len(),
        st.sval_ok(v),
    ensures
        st.put_prop(r, key, v).wf(),
        st.grows_to(st.put_prop(r, key, v)),
{
    let out = st.put_prop(r, key, v);
    lemma_grown_parts_ok(st, out);
    lemma_put(st.objects[r], key, v);
    lemma_put_props_ok(st, st.objects[r], key, v);
    assert forall|q: int| 0 <= q < out.objects.len() implies sorted(#[trigger] out.objects[q])
        && out.props_ok(out.objects[q]) by {
        if q == r {
            let es = put(st.objects[r], key, v);
            assert forall|i: int| 0 <= i < es.len() implies out.sval_ok((#[trigger] es[i]).1) by {
                assert(st.sval_ok(es[i].1));
            }
        } else {
            assert(out.objects[q] == st.objects[q]);
        }
    }
}

pub proof fn lemma_with_func_wf(st: St, f: FuncView)
    requires
        st.wf(),
        st.with_func(f).fits(),
        st.stack_ok(f.closure),
    ensures
        st.with_func(f).wf(),
        st.grows_to(st.with_func(f)),
{
    let out = st.with_func(f);
    lemma_grown_parts_ok(st, out);
    assert forall|r: int| 0 <= r < out.funcs.len() implies out.stack_ok(
        (#[trigger] out.funcs[r]).closure,
    ) by {
        if r < st.funcs.len() {
            assert(out.funcs[r] == st.funcs[r]);
        }
    }
}

pub proof fn lemma_with_scope_wf(st: St, es: Entries<(SVal, Location)>)
    requires
        st.wf(),
        st.with_scope(es).fits(),
        distinct(es),
        st.bindings_ok(es),
    ensures
        st.with_scope(es).wf(),
        st.grows_to(st.with_scope(es)),
{
    let out = st.with_scope(es);
    lemma_grown_parts_ok(st, out);
    assert forall|r: int| 0 <= r < out.scopes.len() implies distinct(#[trigger] out.scopes[r])
        && out.bindings_ok(out.scopes[r]) by {
        if r < st.scopes.len() {
            assert(out.scopes[r] == st.scopes[r]);
        } else {
            assert forall|i: int| 0 <= i < es.len() implies out.sval_ok((#[trigger] es[i]).1.0) by {
                assert(st.sval_ok(es[i].1.0));
            }
        }
    }
    assert forall|r: int| 0 <= r < out.funcs.len() implies out.stack_ok(
        (#[trigger] out.funcs[r]).closure,
    ) by {
        assert(out.funcs[r] == st.funcs[r]);
    }
}

pub proof fn lemma_declare_wf(st: St, s: int, name: Seq<char>, v: SVal, loc: Location)
    requires
        st.wf(),
        0 <= s < st.scopes.len(),
        !has_key(st.scopes[s], name),
        st.sval_ok(v),
    ensures
        st.declare(s, name, v, loc).wf(),
        st.grows_to(st.declare(s, name, v, loc)),
{
    let out = st.declare(s, name, v, loc);
    lemma_grown_parts_ok(st, out);
    assert forall|r: int| 0 <= r < out.scopes.len() implies distinct(#[trigger] out.scopes[r])
        && out.bindings_ok(out.scopes[r]) by {
        if r == s {
            let es = out.scopes[r];
            let old_es = st.scopes[s];
            assert forall|i: int| 0 <= i < es.len() implies out.sval_ok((#[trigger] es[i]).1.0) by {
                if i < old_es.len() {
                    assert(es[i] == old_es[i]);
                    assert(st.sval_ok(old_es[i].1.0));
                }
            }
            assert forall|i: int, j: int|
                0 <= i < es.len() && 0 <= j < es.len() && i != j implies (#[trigger] es[i]).0 != (
            #[trigger] es[j]).0 by {
                if i < old_es.len() {
                    assert(es[i] == old_es[i]);
                }
                if j < old_es.len() {
                    assert(es[j] == old_es[j]);
                }
            }
        } else {
            assert(out.scopes[r] == st.scopes[r]);
        }
    }
    assert forall|r: int| 0 <= r < out.funcs.len() implies out.stack_ok(
        (#[trigger] out.funcs[r]).closure,
    ) by {
        assert(out.funcs[r] == st.funcs[r]);
    }
}

pub proof fn lemma_set_binding_wf(st: St, s: int, i: int, v: SVal)
    requires
        st.wf(),
        0 <= s < st.scopes.len(),
        0 <= i < st.scopes[s].len(),
        st.sval_ok(v),
    ensures
        st.set_binding(s, i, v).wf(),
        st.grows_to(st.set_binding(s, i, v)),
{
    let out = st.set_binding(s, i, v);
    lemma_grown_parts_ok(st, out);
    assert forall|r: int| 0 <= r < out.scopes.len() implies distinct(#[trigger] out.scopes[r])
        && out.bindings_ok(out.scopes[r]) by {
        if r == s {
            let es = out.scopes[r];
            let old_es = st.scopes[s];
            assert forall|j: int| 0 <= j < es.len() implies out.sval_ok((#[trigger] es[j]).1.0) by {
                if j != i {
                    assert(es[j] == old_es[j]);
                    assert(st.sval_ok(old_es[j].1.0));
                }
            }
            assert forall|j: int, k: int|
                0 <= j < es.len() && 0 <= k < es.len() && j != k implies (#[trigger] es[j]).0 != (
            #[trigger] es[k]).0 by {
                assert(es[j].0 == old_es[j].0);
                assert(es[k].0 == old_es[k].0);
            }
        } else {
            assert(out.scopes[r] == st.scopes[r]);
        }
    }
    assert forall|r: int| 0 <= r < out.funcs.len() implies out.stack_ok(
        (#[trigger] out.funcs[r]).closure,
    ) by {
        assert(out.funcs[r] == st.funcs[r]);
    }
}

/// Sealing the objects of a machine that holds no object in any value keeps
/// it well-formed.
pub proof fn lemma_seal_wf(st: St)
    requires
        st.wf(),
        st.holds_no_object(),
    ensures
        st.seal().wf(),
{
    let out = st.seal();
    assert forall|r: int| 0 <= r < out.lists.len() implies out.svals_ok(#[trigger] out.lists[r]) by {
        assert(st.svals_ok(st.lists[r]));
        assert forall|i: int| 0 <= i < out.lists[r].len() implies out.sval_ok(
            #[trigger] out.lists[r][i],
        ) by {
            assert(st.sval_ok(st.lists[r][i]));
            assert(no_object(st.lists[r][i]));
        }
    }
    assert forall|r: int| 0 <= r < out.objects.len() implies sorted(#[trigger] out.objects[r])
        && out.props_ok(out.objects[r]) by {
        assert(st.props_ok(st.objects[r]));
        assert forall|i: int| 0 <= i < out.objects[r].len() implies out.sval_ok(
            (#[trigger] out.objects[r][i]).1,
        ) by {
            assert(st.sval_ok(st.objects[r][i].1));
            assert(no_object(st.objects[r][i].1));
        }
    }
    assert forall|r: int| 0 <= r < out.funcs.len() implies out.stack_ok(
        (#[trigger] out.funcs[r]).closure,
    ) by {
        assert(st.stack_ok(st.funcs[r].closure));
    }
    assert forall|r: int| 0 <= r < out.scopes.len() implies distinct(#[trigger] out.scopes[r])
        && out.bindings_ok(out.scopes[r]) by {
        assert(st.bindings_ok(st.scopes[r]));
        assert forall|i: int| 0 <= i < out.scopes[r].len() implies out.sval_ok(
            (#[trigger] out.scopes[r][i]).1.0,
        ) by {
            assert(st.sval_ok(st.scopes[r][i].1.0));
            assert(no_object(st.scopes[r][i].1.0));
        }
    }
}

} // verus!
