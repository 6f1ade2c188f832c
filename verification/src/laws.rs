//! Laws of the language: what holds of every program, stated over the
//! meaning of programs and proved from it.

use vstd::prelude::*;
use vstd::utf8::encode_utf8;
use vstd::utf8::valid_utf8;

use crate::ast::BinaryOp;
use crate::ast::Expr;
use crate::ast::Location;
use crate::ast::RawExpr;
use crate::ast::Stmt;
use crate::builtins::fns::indent;
use crate::builtins::fns::render_props_spec;
use crate::builtins::fns::render_spec;
use crate::builtins::type_functions::call_builtin_spec;
use crate::builtins::type_functions::native;
use crate::builtins::type_functions::new_builtins_spec;
use crate::builtins::type_functions::type_namespace;
use crate::eval::bind::BindType;
use crate::eval::builtins::Builtins;
use crate::eval::error::Context;
use crate::eval::error::Failure;
use crate::eval::error::type_text;
use crate::eval::machine::ScopeRef;
use crate::eval::ops::apply_binary_operation_spec;
use crate::eval::ops::eq_spec;
use crate::eval::ops::in_i64;
use crate::eval::ops::value_to_pairs_spec;
use crate::eval::order::key_lt;
use crate::eval::scope::find_scope;
use crate::eval::scope::get_spec;
use crate::eval::semantics::EscapeView;
use crate::eval::semantics::TargetView;
use crate::eval::semantics::bind_index_spec;
use crate::eval::semantics::bind_list_items_spec;
use crate::eval::semantics::bind_list_spec;
use crate::eval::semantics::bind_next_spec;
use crate::eval::semantics::bind_spec;
use crate::eval::semantics::eval_binary_op_spec;
use crate::eval::semantics::eval_call_spec;
use crate::eval::semantics::eval_expr_spec;
use crate::eval::semantics::eval_expr_to_bool_spec;
use crate::eval::semantics::eval_expr_to_i64_spec;
use crate::eval::semantics::eval_expr_to_index_spec;
use crate::eval::semantics::eval_expr_to_str_spec;
use crate::eval::semantics::eval_for_spec;
use crate::eval::semantics::eval_index_spec;
use crate::eval::semantics::eval_list_items_spec;
use crate::eval::semantics::eval_prop_spec;
use crate::eval::semantics::eval_read_index_spec;
use crate::eval::semantics::eval_read_key_spec;
use crate::eval::semantics::eval_stmts_in_new_scope_spec;
use crate::eval::semantics::eval_stmts_spec;
use crate::eval::semantics::eval_while_spec;
use crate::eval::semantics::namespace_spec;
use crate::eval::state::St;
use crate::eval::state::after;
use crate::eval::state::distinct;
use crate::eval::state::has_key;
use crate::eval::state::key_index;
use crate::eval::state::lemma_put;
use crate::eval::state::lookup;
use crate::eval::state::put;
use crate::eval::state::put_all;
use crate::eval::state::sorted;
use crate::eval::value::BuiltinFunc;
use crate::eval::value::SVal;
use crate::eval::value::Val;
use crate::eval::steps::steps_eval_expr;
use crate::eval::steps::steps_eval_expr_to_bool;
use crate::eval::steps::steps_eval_stmts;
use crate::eval::steps::steps_eval_stmts_in_new_scope;
use crate::eval::steps::steps_render;
use crate::eval::value::unsourced;

verus! {

/// `i + j` is an overflow exactly when the sum of `i` and `j` lies outside
/// the integers of the language; otherwise it is that sum. The same holds
/// of the difference and of the product.
pub proof fn arithmetic_overflows_exactly_out_of_range(st: St, op_loc: Location, i: i64, j: i64)
    ensures
        apply_binary_operation_spec(st, BinaryOp::Sum, op_loc, Val::Int(i), Val::Int(j)) == (
            st,
            if in_i64(i + j) {
                Ok::<Val, Failure>(Val::Int((i + j) as i64))
            } else {
                Err::<Val, Failure>(
                    Failure::IntOverflow { op: BinaryOp::Sum, lhs: i, rhs: j }.at(op_loc),
                )
            },
        ),
        apply_binary_operation_spec(st, BinaryOp::Sub, op_loc, Val::Int(i), Val::Int(j)) == (
            st,
            if in_i64(i - j) {
                Ok::<Val, Failure>(Val::Int((i - j) as i64))
            } else {
                Err::<Val, Failure>(
                    Failure::IntOverflow { op: BinaryOp::Sub, lhs: i, rhs: j }.at(op_loc),
                )
            },
        ),
        apply_binary_operation_spec(st, BinaryOp::Mul, op_loc, Val::Int(i), Val::Int(j)) == (
            st,
            if in_i64(i * j) {
                Ok::<Val, Failure>(Val::Int((i * j) as i64))
            } else {
                Err::<Val, Failure>(
                    Failure::IntOverflow { op: BinaryOp::Mul, lhs: i, rhs: j }.at(op_loc),
                )
            },
        ),
{
}

/// Whether values like `v` can be compared: functions cannot.
pub open spec fn comparable(v: Val) -> bool {
    !(v is BuiltinFunc) && !(v is Func)
}

/// A value that can be compared equals itself: `v == v` is `true` and
/// `v != v` is `false`, whatever the machine holds. The comparison takes one
/// step; a machine that has none left fails for want of it, at the
/// operator.
pub proof fn value_equals_itself(st: St, op_loc: Location, v: Val)
    requires
        comparable(v),
    ensures
        st.fuel > 0 ==> eq_spec(st, v, v) == (st.tick(), Ok::<Option<bool>, Failure>(Some(true))),
        st.fuel > 0 ==> apply_binary_operation_spec(st, BinaryOp::Eq, op_loc, v, v) == (
            st.tick(),
            Ok::<Val, Failure>(Val::Bool(true)),
        ),
        st.fuel > 0 ==> apply_binary_operation_spec(st, BinaryOp::Ne, op_loc, v, v) == (
            st.tick(),
            Ok::<Val, Failure>(Val::Bool(false)),
        ),
        st.fuel == 0 ==> apply_binary_operation_spec(st, BinaryOp::Eq, op_loc, v, v) == (
            st,
            Err::<Val, Failure>(Failure::StepLimitReached.at(op_loc)),
        ),
        st.fuel == 0 ==> apply_binary_operation_spec(st, BinaryOp::Ne, op_loc, v, v) == (
            st,
            Err::<Val, Failure>(Failure::StepLimitReached.at(op_loc)),
        ),
{
}

/// The pairs that a `for` loop visits come in the order of the value it
/// loops over: the items of a list by their place, the bytes of a string by
/// their place, and the properties of an object by their key.
pub proof fn for_pairs_come_in_order(st: St, v: Val)
    requires
        st.wf(),
        st.val_ok(v),
    ensures
        match v {
            Val::List(r) => {
                let items = st.lists[r as int];
                items.len() <= i64::MAX ==> (value_to_pairs_spec(st, v) matches Ok(pairs)
                    && pairs.len() == items.len() && forall|i: int|
                    0 <= i < items.len() ==> #[trigger] pairs[i] == (
                        unsourced(Val::Int(i as i64)),
                        items[i],
                    ))
            },
            Val::Str(s) => s.len() <= i64::MAX ==> (value_to_pairs_spec(st, v) matches Ok(pairs)
                && pairs.len() == s.len() && forall|i: int|
                0 <= i < s.len() ==> #[trigger] pairs[i] == (
                    unsourced(Val::Int(i as i64)),
                    unsourced(Val::Str(seq![s[i]])),
                )),
            Val::Object(r) => {
                let es = st.objects[r as int];
                &&& value_to_pairs_spec(st, v) matches Ok(pairs) && pairs.len() == es.len()
                    && forall|i: int|
                    0 <= i < es.len() ==> #[trigger] pairs[i] == (
                        unsourced(Val::Str(encode_utf8(es[i].0))),
                        es[i].1,
                    )
                &&& forall|i: int, j: int|
                    0 <= i < j < es.len() ==> key_lt((#[trigger] es[i]).0, (#[trigger] es[j]).0)
            },
            _ => value_to_pairs_spec(st, v) == Err::<Seq<(SVal, SVal)>, Failure>(
                Failure::ForIterNotIterable,
            ),
        },
{
}

/// A `for` loop visits its pairs one after the other: when the body has run
/// for the pair `i` and has not escaped, the loop goes on with the pair
/// `i + 1` in the state that the body left.
pub proof fn for_goes_on_with_the_next_pair(
    b: Builtins,
    st: St,
    scopes: Seq<ScopeRef>,
    lhs: Expr,
    pairs: Seq<(SVal, SVal)>,
    i: int,
    stmts: Seq<Stmt>,
)
    requires
        0 <= i < pairs.len(),
    ensures
        ({
            let st1 = st.with_list(seq![pairs[i].0, pairs[i].1]);
            let pair = unsourced(Val::List(st.lists.len() as usize));
            let (st2, r) = eval_stmts_spec(
                b,
                st1,
                scopes,
                seq![(TargetView::Pattern(lhs.0, lhs.1), pair)],
                stmts,
            );
            (r == Ok::<EscapeView, Failure>(EscapeView::Nothing) || (r matches Ok(
                EscapeView::Continue { .. },
            ))) ==> eval_for_spec(
                b,
                st,
                scopes,
                lhs,
                pairs,
                i,
                stmts,
            ) == eval_for_spec(b, st2, scopes, lhs, pairs, i + 1, stmts)
        }),
{
    reveal(eval_for_spec);
    let st1 = st.with_list(seq![pairs[i].0, pairs[i].1]);
    let pair = unsourced(Val::List(st.lists.len() as usize));
    steps_eval_stmts(b, st1, scopes, seq![(TargetView::Pattern(lhs.0, lhs.1), pair)], stmts);
}

/// `break` ends the loop it stands in: when the body of a `while` escapes
/// by `break`, the loop is over in the state that the body left, the
/// condition is not evaluated again, and the statement after the loop runs
/// next.
pub proof fn break_ends_while(
    b: Builtins,
    st: St,
    scopes: Seq<ScopeRef>,
    cond: Expr,
    stmts: Seq<Stmt>,
)
    ensures
        ({
            let (st1, rb) = eval_expr_to_bool_spec(b, st, scopes, "condition"@, cond);
            let (st2, r) = eval_stmts_in_new_scope_spec(b, st1, scopes, stmts);
            rb == Ok::<bool, Failure>(true) && (r matches Ok(EscapeView::Break { .. }))
                ==> eval_while_spec(
                b,
                st,
                scopes,
                cond,
                stmts,
            ) == (st2, Ok::<EscapeView, Failure>(EscapeView::Nothing))
        }),
{
    reveal(eval_while_spec);
    let (st1, rb) = eval_expr_to_bool_spec(b, st, scopes, "condition"@, cond);
    steps_eval_expr_to_bool(b, st, scopes, "condition"@, cond);
    steps_eval_stmts_in_new_scope(b, st1, scopes, stmts);
}

/// A `while` goes on as long as its condition holds: when the condition
/// holds and the body has run without leaving the loop, the loop goes on
/// from the state that the body left, with the condition evaluated again.
pub proof fn while_goes_on_with_the_next_turn(
    b: Builtins,
    st: St,
    scopes: Seq<ScopeRef>,
    cond: Expr,
    stmts: Seq<Stmt>,
)
    ensures
        ({
            let (st1, rb) = eval_expr_to_bool_spec(b, st, scopes, "condition"@, cond);
            let (st2, r) = eval_stmts_in_new_scope_spec(b, st1, scopes, stmts);
            rb == Ok::<bool, Failure>(true) && (r == Ok::<EscapeView, Failure>(EscapeView::Nothing)
                || (r matches Ok(EscapeView::Continue { .. }))) ==> eval_while_spec(
                b,
                st,
                scopes,
                cond,
                stmts,
            ) == eval_while_spec(b, st2, scopes, cond, stmts)
        }),
{
    reveal(eval_while_spec);
    let (st1, rb) = eval_expr_to_bool_spec(b, st, scopes, "condition"@, cond);
    steps_eval_expr_to_bool(b, st, scopes, "condition"@, cond);
    steps_eval_stmts_in_new_scope(b, st1, scopes, stmts);
}

/// `break` ends the loop it stands in: when the body of a `for` escapes by
/// `break`, the loop is over in the state that the body left, and no pair
/// after that one is visited.
pub proof fn break_ends_for(
    b: Builtins,
    st: St,
    scopes: Seq<ScopeRef>,
    lhs: Expr,
    pairs: Seq<(SVal, SVal)>,
    i: int,
    stmts: Seq<Stmt>,
)
    requires
        0 <= i < pairs.len(),
    ensures
        ({
            let st1 = st.with_list(seq![pairs[i].0, pairs[i].1]);
            let pair = unsourced(Val::List(st.lists.len() as usize));
            let (st2, r) = eval_stmts_spec(
                b,
                st1,
                scopes,
                seq![(TargetView::Pattern(lhs.0, lhs.1), pair)],
                stmts,
            );
            (r matches Ok(EscapeView::Break { .. })) ==> eval_for_spec(
                b,
                st,
                scopes,
                lhs,
                pairs,
                i,
                stmts,
            ) == (st2, Ok::<EscapeView, Failure>(EscapeView::Nothing))
        }),
{
    reveal(eval_for_spec);
    let st1 = st.with_list(seq![pairs[i].0, pairs[i].1]);
    let pair = unsourced(Val::List(st.lists.len() as usize));
    steps_eval_stmts(b, st1, scopes, seq![(TargetView::Pattern(lhs.0, lhs.1), pair)], stmts);
}

/// The line that `print` writes for one property of an object.
pub open spec fn prop_line(key: Seq<char>, shown: Seq<u8>) -> Seq<u8> {
    encode_utf8("    \""@) + encode_utf8(key) + encode_utf8("\": "@) + indent(shown) + encode_utf8(
        ",\n"@,
    )
}

/// `print` shows the properties of an object in the order of their keys:
/// the keys of every object stand in increasing order, and `print` writes
/// the line of each property after the lines of the properties before it.
pub proof fn print_shows_properties_in_key_order(st: St, r: int, i: int, acc: Seq<u8>)
    requires
        st.wf(),
        0 <= r < st.objects.len(),
        0 <= i < st.objects[r].len(),
    ensures
        forall|j: int, k: int|
            0 <= j < k < st.objects[r].len() ==> key_lt(
                (#[trigger] st.objects[r][j]).0,
                (#[trigger] st.objects[r][k]).0,
            ),
        ({
            let es = st.objects[r];
            let (st1, shown) = render_spec(st, es[i].1.v);
            (match shown {
                Ok(bytes) => render_props_spec(st, es, i, acc) == render_props_spec(
                    st1,
                    es,
                    i + 1,
                    acc + prop_line(es[i].0, bytes),
                ),
                Err(e) => render_props_spec(st, es, i, acc) == (
                    st1,
                    Err::<Seq<u8>, Failure>(e),
                ),
            })
        }),
{
    assert(sorted(st.objects[r]));
    let es = st.objects[r];
    let (st1, shown) = render_spec(st, es[i].1.v);
    steps_render(st, es[i].1.v);
    if let Ok(bytes) = shown {
        assert(acc + encode_utf8("    \""@) + encode_utf8(es[i].0) + encode_utf8("\": "@) + indent(
            bytes,
        ) + encode_utf8(",\n"@) =~= acc + prop_line(es[i].0, bytes));
    }
}

/// `type`, called on a receiver with no argument, gives the name of the
/// type of the receiver, as a string.
pub proof fn type_gives_the_type_name(st: St, this: SVal)
    ensures
        call_builtin_spec(st, BuiltinFunc::AnyType, Some(this), seq![]) == (
            st,
            Ok::<SVal, Failure>(unsourced(Val::Str(encode_utf8(type_text(this.v))))),
        ),
{
    assert(Seq::<SVal>::empty().len() == 0);
}

/// `len`, called on a string with no argument, gives the number of its
/// bytes.
pub proof fn len_gives_the_number_of_bytes(st: St, raw: Seq<u8>, source: Option<Val>)
    requires
        raw.len() <= i64::MAX,
    ensures
        call_builtin_spec(
            st,
            BuiltinFunc::StrLen,
            Some(SVal { v: Val::Str(raw), source }),
            seq![],
        ) == (st, Ok::<SVal, Failure>(unsourced(Val::Int(raw.len() as i64)))),
{
    assert(Seq::<SVal>::empty().len() == 0);
}

/// `len`, called on a list with no argument, gives the number of the items
/// that the list holds.
pub proof fn len_gives_the_number_of_items(st: St, list: usize, source: Option<Val>)
    requires
        st.lists[list as int].len() <= i64::MAX,
    ensures
        call_builtin_spec(
            st,
            BuiltinFunc::ListLen,
            Some(SVal { v: Val::List(list), source }),
            seq![],
        ) == (st, Ok::<SVal, Failure>(unsourced(Val::Int(st.lists[list as int].len() as i64)))),
{
    assert(Seq::<SVal>::empty().len() == 0);
}

/// What a name holds depends on the scopes alone, not on the lists, the
/// objects or the steps left.
pub proof fn lemma_get_reads_scopes_only(a: St, c: St, stack: Seq<ScopeRef>, name: Seq<char>)
    requires
        a.scopes == c.scopes,
    ensures
        get_spec(a, stack, name) == get_spec(c, stack, name),
{
    lemma_find_reads_scopes_only(a, c, stack, name, stack.len() as int);
}

proof fn lemma_find_reads_scopes_only(
    a: St,
    c: St,
    stack: Seq<ScopeRef>,
    name: Seq<char>,
    top: int,
)
    requires
        a.scopes == c.scopes,
    ensures
        find_scope(a, stack, name, top) == find_scope(c, stack, name, top),
    decreases top,
{
    if top > 0 {
        lemma_find_reads_scopes_only(a, c, stack, name, top - 1);
    }
}

/// The name and the index of a target of the form `name[index]` with a
/// literal index.
pub open spec fn indexed_name(target: Expr) -> Option<(Seq<char>, i64)> {
    match target.0 {
        RawExpr::Index { expr, location } => match (expr.0, location.0) {
            (RawExpr::Var { name }, RawExpr::Int { n }) => Some((name@, n)),
            _ => None,
        },
        _ => None,
    }
}

/// [`index_assignment_round_trip`], given the steps that the assignment and
/// the reading take.
proof fn lemma_index_assignment_round_trip(
    b: Builtins,
    st: St,
    scopes: Seq<ScopeRef>,
    target: Expr,
    rhs: SVal,
    list: usize,
)
    requires
        indexed_name(target) matches Some(t) && (get_spec(st, scopes, t.0) matches Some(xs)
            && xs.v == Val::List(list) && 0 <= t.1 < st.lists[list as int].len() && t.1
            <= usize::MAX),
        list < st.lists.len(),
        st.fuel >= 3,
    ensures
        ({
            let (st1, r1) = bind_spec(b, st, scopes, target.0, target.1, rhs, BindType::Assignment);
            &&& r1 == Ok::<(), Failure>(())
            &&& st1.fuel >= 3 ==> eval_expr_spec(b, st1, scopes, target).1 == Ok::<SVal, Failure>(
                unsourced(rhs.v),
            )
        }),
{
    reveal(bind_spec);
    reveal(bind_next_spec);
    reveal(bind_index_spec);
    reveal(eval_index_spec);
    reveal(eval_expr_spec);
    reveal(eval_expr_to_index_spec);
    reveal(eval_expr_to_i64_spec);
    reveal(eval_read_index_spec);
    let named = indexed_name(target)->0;
    let name = named.0;
    let n = named.1;
    match target.0 {
        RawExpr::Index { expr, location } => {
            // The assignment.
            let s1 = st.tick();
            lemma_get_reads_scopes_only(st, s1.tick(), scopes, name);
            let s2 = s1.tick();
            assert(eval_expr_spec(b, s1, scopes, *expr) == (
                s2,
                Ok::<SVal, Failure>(unsourced(Val::List(list))),
            ));
            let s3 = s2.tick();
            assert(eval_expr_spec(b, s2, scopes, *location) == (
                s3,
                Ok::<SVal, Failure>(unsourced(Val::Int(n))),
            ));
            assert(eval_expr_to_i64_spec(b, s2, scopes, "index"@, *location) == (
                s3,
                Ok::<i64, Failure>(n),
            ));
            assert(eval_expr_to_index_spec(b, s2, scopes, *location) == (
                s3,
                Ok::<usize, Failure>(n as usize),
            ));
            let s4 = s3.set_item(list as int, n as int, rhs);
            assert(bind_index_spec(b, s1, scopes, seq![], *expr, *location, target.1, rhs, None)
                == (s4, Ok::<Seq<Seq<char>>, Failure>(seq![])));
            assert(bind_next_spec(
                b,
                st,
                scopes,
                seq![],
                target.0,
                target.1,
                rhs,
                None,
                BindType::Assignment,
            ) == (s4, Ok::<Seq<Seq<char>>, Failure>(seq![])));
            assert(bind_spec(b, st, scopes, target.0, target.1, rhs, BindType::Assignment) == (
                s4,
                Ok::<(), Failure>(()),
            ));
            // Reading the place again.
            if s4.fuel >= 3 {
                let t1 = s4.tick();
                let t2 = t1.tick();
                lemma_get_reads_scopes_only(st, t1.tick(), scopes, name);
                assert(eval_expr_spec(b, t1, scopes, *expr) == (
                    t2,
                    Ok::<SVal, Failure>(unsourced(Val::List(list))),
                ));
                let t3 = t2.tick();
                assert(eval_expr_spec(b, t2, scopes, *location) == (
                    t3,
                    Ok::<SVal, Failure>(unsourced(Val::Int(n))),
                ));
                assert(eval_read_index_spec(b, t2, scopes, *location, target.1) == (
                    t3,
                    Ok::<usize, Failure>(n as usize),
                ));
                assert(t3.lists[list as int][n as int] == rhs);
                assert(eval_index_spec(b, t1, scopes, *expr, *location, target.1) == (
                    t3,
                    Ok::<SVal, Failure>(unsourced(rhs.v)),
                ));
            }
        },
        _ => {},
    }
}


/// An index or a key is read only by a machine that has a step to take.
proof fn lemma_reading_an_index_takes_a_step(
    b: Builtins,
    st: St,
    scopes: Seq<ScopeRef>,
    e: Expr,
    loc: Location,
)
    ensures
        eval_read_index_spec(b, st, scopes, e, loc).1 is Ok ==> st.fuel > 0,
        eval_read_key_spec(b, st, scopes, e, loc).1 is Ok ==> st.fuel > 0,
        eval_expr_to_index_spec(b, st, scopes, e).1 is Ok ==> st.fuel > 0,
        eval_expr_to_str_spec(b, st, scopes, "property"@, e).1 is Ok ==> st.fuel > 0,
{
    reveal(eval_read_index_spec);
    reveal(eval_read_key_spec);
    reveal(eval_expr_to_index_spec);
    reveal(eval_expr_to_i64_spec);
    reveal(eval_expr_to_str_spec);
    evaluation_takes_a_step(b, st, scopes, e);
}

/// Reading `e[i]` takes a step for `e` and a step for `i`.
proof fn lemma_reading_takes_two_steps(
    b: Builtins,
    st: St,
    scopes: Seq<ScopeRef>,
    expr: Expr,
    location: Expr,
    loc: Location,
)
    ensures
        eval_index_spec(b, st, scopes, expr, location, loc).1 is Ok ==> st.fuel >= 2,
{
    reveal(eval_index_spec);
    reveal(eval_expr_spec);
    reveal(eval_read_index_spec);
    reveal(eval_read_key_spec);
    steps_eval_expr(b, st, scopes, expr);
    let (s2, r) = after(st, eval_expr_spec(b, st, scopes, expr));
    lemma_reading_an_index_takes_a_step(b, s2, scopes, location, loc);
}

/// Reading `e[i]` takes three steps at least: one for itself, one for `e`
/// and one for `i`.
proof fn lemma_reading_takes_three_steps(b: Builtins, st: St, scopes: Seq<ScopeRef>, target: Expr)
    requires
        target.0 is Index,
    ensures
        eval_expr_spec(b, st, scopes, target).1 is Ok ==> st.fuel >= 3,
{
    reveal(eval_expr_spec);
    reveal(eval_index_spec);
    match target.0 {
        RawExpr::Index { expr, location } => {
            if st.fuel > 0 {
                lemma_reading_takes_two_steps(b, st.tick(), scopes, *expr, *location, target.1);
            }
        },
        _ => {},
    }
}

/// Assigning to `e[i]` takes a step for `e` and a step for `i`.
proof fn lemma_assigning_takes_two_steps(
    b: Builtins,
    st: St,
    scopes: Seq<ScopeRef>,
    expr: Expr,
    location: Expr,
    loc: Location,
    rhs: SVal,
)
    ensures
        bind_index_spec(b, st, scopes, seq![], expr, location, loc, rhs, None).1 is Ok ==> st.fuel
            >= 2,
{
    reveal(bind_index_spec);
    reveal(eval_expr_spec);
    reveal(eval_expr_to_index_spec);
    reveal(eval_expr_to_str_spec);
    steps_eval_expr(b, st, scopes, expr);
    let (s2, r) = after(st, eval_expr_spec(b, st, scopes, expr));
    lemma_reading_an_index_takes_a_step(b, s2, scopes, location, loc);
}

/// Assigning to `e[i]` takes three steps at least: one for itself, one for
/// `e` and one for `i`.
proof fn lemma_assigning_takes_three_steps(
    b: Builtins,
    st: St,
    scopes: Seq<ScopeRef>,
    target: Expr,
    rhs: SVal,
)
    requires
        target.0 is Index,
    ensures
        bind_spec(b, st, scopes, target.0, target.1, rhs, BindType::Assignment).1 is Ok ==> st.fuel
            >= 3,
{
    reveal(bind_spec);
    reveal(bind_next_spec);
    reveal(bind_index_spec);
    match target.0 {
        RawExpr::Index { expr, location } => {
            if st.fuel > 0 {
                lemma_assigning_takes_two_steps(
                    b,
                    st.tick(),
                    scopes,
                    *expr,
                    *location,
                    target.1,
                    rhs,
                );
            }
        },
        _ => {},
    }
}

/// After `xs[i] = v`, `xs[i]` is `v`: where `xs` names a list and `i` is a
/// place in it, reading the place after an assignment to it that ended well
/// gives the value that was assigned. The assignment and the reading take
/// three steps each, and end well where the machine has them.
pub proof fn index_assignment_round_trip(
    b: Builtins,
    st: St,
    scopes: Seq<ScopeRef>,
    target: Expr,
    rhs: SVal,
    list: usize,
)
    requires
        indexed_name(target) matches Some(t) && (get_spec(st, scopes, t.0) matches Some(xs)
            && xs.v == Val::List(list) && 0 <= t.1 < st.lists[list as int].len() && t.1
            <= usize::MAX),
        list < st.lists.len(),
    ensures
        ({
            let (st1, r1) = bind_spec(b, st, scopes, target.0, target.1, rhs, BindType::Assignment);
            let read = eval_expr_spec(b, st1, scopes, target).1;
            &&& r1 is Ok <==> st.fuel >= 3
            &&& r1 is Ok ==> (read is Ok <==> st1.fuel >= 3)
            &&& r1 is Ok && read is Ok ==> read == Ok::<SVal, Failure>(unsourced(rhs.v))
        }),
{
    let (st1, r1) = bind_spec(b, st, scopes, target.0, target.1, rhs, BindType::Assignment);
    lemma_assigning_takes_three_steps(b, st, scopes, target, rhs);
    lemma_reading_takes_three_steps(b, st1, scopes, target);
    if st.fuel >= 3 {
        lemma_index_assignment_round_trip(b, st, scopes, target, rhs, list);
    }
}

/// Declaring a name that the innermost scope does not declare gives the
/// name its value and leaves every other name as it was.
pub proof fn lemma_get_after_declare(
    st: St,
    stack: Seq<ScopeRef>,
    name: Seq<char>,
    v: SVal,
    loc: Location,
    other: Seq<char>,
)
    requires
        st.wf(),
        st.stack_ok(stack),
        stack.len() > 0,
        !has_key(st.scopes[stack.last() as int], name),
    ensures
        get_spec(st.declare(stack.last() as int, name, v, loc), stack, name) == Some(v),
        other != name ==> get_spec(st.declare(stack.last() as int, name, v, loc), stack, other)
            == get_spec(st, stack, other),
{
    let s = stack.last() as int;
    let after = st.declare(s, name, v, loc);
    let es = st.scopes[s];
    let new_es = after.scopes[s];
    assert(new_es == es.push((name, (v, loc))));
    assert(new_es[es.len() as int].0 == name);
    assert(has_key(new_es, name));
    let i = key_index(new_es, name);
    if i < es.len() {
        assert(es[i] == new_es[i]);
        assert(has_key(es, name));
    }
    assert(i == es.len());
    if other != name {
        lemma_find_after_declare(st, stack, name, v, loc, other, stack.len() as int);
        match find_scope(st, stack, other, stack.len() as int) {
            Some(k) => {
                crate::eval::scope::lemma_find_scope_bounds(
                    st,
                    stack,
                    other,
                    stack.len() as int,
                );
                let q = stack[k] as int;
                if q == s {
                    assert(distinct(es));
                    let j = key_index(es, other);
                    assert(new_es[j] == es[j]);
                    assert(has_key(new_es, other));
                    let j2 = key_index(new_es, other);
                    if j2 < es.len() {
                        assert(new_es[j2] == es[j2]);
                    }
                    assert(j2 == j);
                } else {
                    assert(after.scopes[q] == st.scopes[q]);
                }
            },
            None => {},
        }
    }
}

proof fn lemma_find_after_declare(
    st: St,
    stack: Seq<ScopeRef>,
    name: Seq<char>,
    v: SVal,
    loc: Location,
    other: Seq<char>,
    top: int,
)
    requires
        st.stack_ok(stack),
        stack.len() > 0,
        0 <= top <= stack.len(),
        other != name,
    ensures
        find_scope(st.declare(stack.last() as int, name, v, loc), stack, other, top) == find_scope(
            st,
            stack,
            other,
            top,
        ),
    decreases top,
{
    if top > 0 {
        lemma_find_after_declare(st, stack, name, v, loc, other, top - 1);
        let s = stack.last() as int;
        let q = stack[top - 1] as int;
        let after = st.declare(s, name, v, loc);
        if q == s {
            let es = st.scopes[s];
            let new_es = after.scopes[s];
            assert(new_es == es.push((name, (v, loc))));
            if has_key(es, other) {
                let j = key_index(es, other);
                assert(new_es[j] == es[j]);
            }
            if has_key(new_es, other) {
                let j = key_index(new_es, other);
                assert(j < es.len());
                assert(new_es[j] == es[j]);
            }
        } else {
            assert(after.scopes[q] == st.scopes[q]);
        }
    }
}

/// Declaring a variable binds it: a pattern that is a name, not `_`, that
/// the binding has not bound and the innermost scope does not declare, is
/// declared there with the value.
pub proof fn lemma_declare_variable(
    b: Builtins,
    st: St,
    stack: Seq<ScopeRef>,
    names: Seq<Seq<char>>,
    raw: RawExpr,
    loc: Location,
    v: SVal,
)
    requires
        raw is Var,
        raw->Var_name@ != "_"@,
        !names.contains(raw->Var_name@),
        stack.len() > 0,
        !has_key(st.scopes[stack.last() as int], raw->Var_name@),
        st.fuel >= 1,
    ensures
        bind_next_spec(b, st, stack, names, raw, loc, v, None, BindType::Declaration) == (
            st.tick().declare(stack.last() as int, raw->Var_name@, v, loc),
            Ok::<Seq<Seq<char>>, Failure>(names.push(raw->Var_name@)),
        ),
{
    reveal(bind_next_spec);
}

/// The names of a list pattern of the form `[a, b, *rest]`.
pub open spec fn collecting_names(pattern: Expr) -> Option<(Seq<char>, Seq<char>, Seq<char>)> {
    match pattern.0 {
        RawExpr::List { items, collect } => if collect && items@.len() == 3 && !items@[0].is_spread
            && !items@[1].is_spread && !items@[2].is_spread {
            match (items@[0].expr.0, items@[1].expr.0, items@[2].expr.0) {
                (
                    RawExpr::Var { name: a },
                    RawExpr::Var { name: b },
                    RawExpr::Var { name: rest },
                ) => Some((a@, b@, rest@)),
                _ => None,
            }
        } else {
            None
        },
        _ => None,
    }
}

/// `[a, b, *rest] := xs` declares `a` as the first item of `xs`, `b` as the
/// second and `rest` as a new list of the items after them, where `xs` is a
/// list of two items or more and `a`, `b` and `rest` are three different
/// names, none of them `_`, that the innermost scope does not declare yet.
pub proof fn list_destructuring_with_collect(
    b: Builtins,
    st: St,
    stack: Seq<ScopeRef>,
    pattern: Expr,
    rhs: SVal,
    list: usize,
)
    requires
        st.wf(),
        st.stack_ok(stack),
        stack.len() > 0,
        rhs.v == Val::List(list),
        list < st.lists.len(),
        2 <= st.lists[list as int].len(),
        st.lists.len() < usize::MAX,
        st.fuel >= 4,
        collecting_names(pattern) matches Some(t) && t.0 != t.1 && t.0 != t.2 && t.1 != t.2 && t.0
            != "_"@ && t.1 != "_"@ && t.2 != "_"@ && !has_key(
            st.scopes[stack.last() as int],
            t.0,
        ) && !has_key(st.scopes[stack.last() as int], t.1) && !has_key(
            st.scopes[stack.last() as int],
            t.2,
        ),
    ensures
        ({
            let xs = st.lists[list as int];
            let t = collecting_names(pattern)->0;
            let (st1, r1) = bind_spec(
                b,
                st,
                stack,
                pattern.0,
                pattern.1,
                rhs,
                BindType::Declaration,
            );
            &&& r1 == Ok::<(), Failure>(())
            &&& get_spec(st1, stack, t.0) == Some(xs[0])
            &&& get_spec(st1, stack, t.1) == Some(xs[1])
            &&& get_spec(st1, stack, t.2) == Some(unsourced(Val::List(st.lists.len() as usize)))
            &&& st1.lists[st.lists.len() as int] == xs.subrange(2, xs.len() as int)
        }),
{
    reveal(bind_spec);
    reveal(bind_next_spec);
    reveal(bind_list_spec);
    reveal(bind_list_items_spec);
    let t = collecting_names(pattern)->0;
    let xs = st.lists[list as int];
    let s = stack.last() as int;
    let no_names = Seq::<Seq<char>>::empty();
    match pattern.0 {
        RawExpr::List { items, collect } => {
            let lhs = items@;
            let loc = pattern.1;
            let s0 = st.tick();
            crate::eval::state::lemma_tick_wf(st);
            assert(s0.svals_ok(xs));
            // The first name.
            lemma_declare_variable(b, s0, stack, no_names, lhs[0].expr.0, lhs[0].expr.1, xs[0]);
            let s1 = s0.tick().declare(s, t.0, xs[0], lhs[0].expr.1);
            crate::eval::state::lemma_tick_wf(s0);
            crate::eval::state::lemma_declare_wf(s0.tick(), s, t.0, xs[0], lhs[0].expr.1);
            lemma_get_after_declare(s0.tick(), stack, t.0, xs[0], lhs[0].expr.1, t.0);
            let n1 = no_names.push(t.0);
            // The second name.
            assert(!has_key(s1.scopes[s], t.1)) by {
                if has_key(s1.scopes[s], t.1) {
                    let j = key_index(s1.scopes[s], t.1);
                    assert(j < st.scopes[s].len());
                    assert(s1.scopes[s][j] == st.scopes[s][j]);
                }
            }
            assert(!n1.contains(t.1));
            lemma_declare_variable(b, s1, stack, n1, lhs[1].expr.0, lhs[1].expr.1, xs[1]);
            let s2 = s1.tick().declare(s, t.1, xs[1], lhs[1].expr.1);
            crate::eval::state::lemma_tick_wf(s1);
            crate::eval::state::lemma_grows_sval_ok(st, s1.tick(), xs[1]);
            crate::eval::state::lemma_declare_wf(s1.tick(), s, t.1, xs[1], lhs[1].expr.1);
            lemma_get_reads_scopes_only(s1, s1.tick(), stack, t.0);
            lemma_get_after_declare(s1.tick(), stack, t.1, xs[1], lhs[1].expr.1, t.0);
            lemma_get_after_declare(s1.tick(), stack, t.1, xs[1], lhs[1].expr.1, t.1);
            let n2 = n1.push(t.1);
            // The collecting name.
            let tail = xs.subrange(2, xs.len() as int);
            let s2l = s2.with_list(tail);
            let rest = unsourced(Val::List(st.lists.len() as usize));
            assert(s2.lists[list as int] == xs);
            assert(s2.svals_ok(tail)) by {
                crate::eval::state::lemma_grows_svals_ok(st, s2, xs);
                assert forall|i: int| 0 <= i < tail.len() implies s2.sval_ok(#[trigger] tail[i]) by {
                    assert(tail[i] == xs[i + 2]);
                }
            }
            crate::eval::state::lemma_with_list_wf(s2, tail);
            assert(!has_key(s2l.scopes[s], t.2)) by {
                if has_key(s2l.scopes[s], t.2) {
                    let j = key_index(s2l.scopes[s], t.2);
                    if j < st.scopes[s].len() {
                        assert(s2l.scopes[s][j] == st.scopes[s][j]);
                    }
                }
            }
            assert(!n2.contains(t.2));
            lemma_declare_variable(b, s2l, stack, n2, lhs[2].expr.0, lhs[2].expr.1, rest);
            let s3 = s2l.tick().declare(s, t.2, rest, lhs[2].expr.1);
            crate::eval::state::lemma_tick_wf(s2l);
            lemma_get_reads_scopes_only(s2, s2l.tick(), stack, t.0);
            lemma_get_reads_scopes_only(s2, s2l.tick(), stack, t.1);
            lemma_get_after_declare(s2l.tick(), stack, t.2, rest, lhs[2].expr.1, t.0);
            lemma_get_after_declare(s2l.tick(), stack, t.2, rest, lhs[2].expr.1, t.1);
            lemma_get_after_declare(s2l.tick(), stack, t.2, rest, lhs[2].expr.1, t.2);
            let n3 = n2.push(t.2);
            // The steps put together.
            assert(bind_list_items_spec(
                b,
                s3,
                stack,
                n3,
                lhs,
                true,
                loc,
                list,
                3,
                BindType::Declaration,
            ) == (s3, Ok::<Seq<Seq<char>>, Failure>(n3)));
            assert(bind_list_items_spec(
                b,
                s2,
                stack,
                n2,
                lhs,
                true,
                loc,
                list,
                2,
                BindType::Declaration,
            ) == (s3, Ok::<Seq<Seq<char>>, Failure>(n3)));
            assert(bind_list_items_spec(
                b,
                s1,
                stack,
                n1,
                lhs,
                true,
                loc,
                list,
                1,
                BindType::Declaration,
            ) == (s3, Ok::<Seq<Seq<char>>, Failure>(n3)));
            assert(bind_list_items_spec(
                b,
                s0,
                stack,
                no_names,
                lhs,
                true,
                loc,
                list,
                0,
                BindType::Declaration,
            ) == (s3, Ok::<Seq<Seq<char>>, Failure>(n3)));
            assert(bind_list_spec(
                b,
                s0,
                stack,
                no_names,
                lhs,
                true,
                loc,
                list,
                BindType::Declaration,
            ) == (s3, Ok::<Seq<Seq<char>>, Failure>(n3)));
            assert(bind_next_spec(
                b,
                st,
                stack,
                no_names,
                pattern.0,
                loc,
                rhs,
                None,
                BindType::Declaration,
            ) == (s3, Ok::<Seq<Seq<char>>, Failure>(n3)));
        },
        _ => {},
    }
}

/// An expression is evaluated only by a machine that has a step to take.
pub proof fn evaluation_takes_a_step(b: Builtins, st: St, scopes: Seq<ScopeRef>, e: Expr)
    ensures
        eval_expr_spec(b, st, scopes, e).1 is Ok ==> st.fuel > 0,
{
    reveal(eval_expr_spec);
}

/// The receiver and the name of a call of the form `e->name()`: a type
/// property of `e`, called with no argument.
pub open spec fn type_call(call: Expr) -> Option<(Expr, Seq<char>, Location)> {
    match call.0 {
        RawExpr::Call { func, args } => if args@.len() == 0 {
            match func.0 {
                RawExpr::Prop { expr, name, type_prop } => if type_prop {
                    Some((*expr, name@, func.1))
                } else {
                    None
                },
                _ => None,
            }
        } else {
            None
        },
        _ => None,
    }
}

/// Whether the object in which the type properties of `v` are looked up
/// holds the native function `f` under `name`.
pub open spec fn offers(b: Builtins, st: St, v: Val, name: Seq<char>, f: BuiltinFunc) -> bool {
    namespace_spec(b, v, true, (0, 0)) matches Ok(ns) && (lookup(st.objects[ns as int], name)
        matches Some(found) && (found.v matches Val::BuiltinFunc { f: g, .. } && g == f))
}

/// [`type_property_call`], given the two steps that the call takes before
/// its receiver is evaluated.
proof fn lemma_type_property_call(
    b: Builtins,
    st: St,
    scopes: Seq<ScopeRef>,
    call: Expr,
    f: BuiltinFunc,
)
    requires
        type_call(call) is Some,
        st.fuel >= 2,
        ({
            let t = type_call(call)->0;
            let (st1, r) = eval_expr_spec(b, st.tick().tick(), scopes, t.0);
            r matches Ok(v) && offers(b, st1, v.v, t.1, f)
        }),
    ensures
        ({
            let t = type_call(call)->0;
            let (st1, r) = eval_expr_spec(b, st.tick().tick(), scopes, t.0);
            let (st2, out) = call_builtin_spec(st1, f, Some(unsourced(r->Ok_0.v)), seq![]);
            eval_expr_spec(b, st, scopes, call) == (
                st2,
                match out {
                    Ok(v) => Ok::<SVal, Failure>(unsourced(v.v)),
                    Err(e) => Err::<SVal, Failure>(
                        Failure::EvalBuiltinFuncCallFailed {
                            source: Box::new(e),
                            func_name: Some(
                                lookup(
                                    st1.objects[namespace_spec(b, r->Ok_0.v, true, (0, 0))->Ok_0
                                        as int],
                                    t.1,
                                )->0.v->BuiltinFunc_name,
                            ),
                            call_loc: call.1,
                        }.within(Context::EvalCallFailed),
                    ),
                },
            )
        }),
{
    reveal(eval_expr_spec);
    reveal(eval_call_spec);
    reveal(eval_list_items_spec);
    reveal(eval_prop_spec);
    let t = type_call(call)->0;
    steps_eval_expr(b, st.tick().tick(), scopes, t.0);
    match call.0 {
        RawExpr::Call { func, args } => {
            let s1 = st.tick();
            assert(eval_list_items_spec(b, s1, scopes, args@, 0, seq![]) == (
                s1,
                Ok::<Seq<SVal>, Failure>(seq![]),
            ));
            let s2 = s1.tick();
            let (st1, r) = eval_expr_spec(b, s2, scopes, t.0);
            let v = r->Ok_0;
            let ns = namespace_spec(b, v.v, true, (0, 0))->Ok_0;
            assert(namespace_spec(b, v.v, true, t.2) == Ok::<usize, Failure>(ns));
            let found = lookup(st1.objects[ns as int], t.1)->0;
            assert(eval_prop_spec(b, s2, scopes, t.0, t.1, true, t.2) == (
                st1,
                Ok::<SVal, Failure>(SVal { v: found.v, source: Some(v.v) }),
            ));
            assert(eval_expr_spec(b, s1, scopes, *func) == (
                st1,
                Ok::<SVal, Failure>(SVal { v: found.v, source: Some(v.v) }),
            ));
        },
        _ => {},
    }
}

/// What the call `e->name()` gives where the type of `e` offers the native
/// function `f` under `name`: what `f` gives on the value of `e` as its
/// receiver.
pub proof fn type_property_call(
    b: Builtins,
    st: St,
    scopes: Seq<ScopeRef>,
    call: Expr,
    f: BuiltinFunc,
)
    requires
        type_call(call) is Some,
        ({
            let t = type_call(call)->0;
            let (st1, r) = eval_expr_spec(b, st.tick().tick(), scopes, t.0);
            r matches Ok(v) && offers(b, st1, v.v, t.1, f)
        }),
    ensures
        ({
            let t = type_call(call)->0;
            let (st1, r) = eval_expr_spec(b, st.tick().tick(), scopes, t.0);
            let (st2, out) = call_builtin_spec(st1, f, Some(unsourced(r->Ok_0.v)), seq![]);
            eval_expr_spec(b, st, scopes, call) == (
                st2,
                match out {
                    Ok(v) => Ok::<SVal, Failure>(unsourced(v.v)),
                    Err(e) => Err::<SVal, Failure>(
                        Failure::EvalBuiltinFuncCallFailed {
                            source: Box::new(e),
                            func_name: Some(
                                lookup(
                                    st1.objects[namespace_spec(b, r->Ok_0.v, true, (0, 0))->Ok_0
                                        as int],
                                    t.1,
                                )->0.v->BuiltinFunc_name,
                            ),
                            call_loc: call.1,
                        }.within(Context::EvalCallFailed),
                    ),
                },
            )
        }),
{
    let t = type_call(call)->0;
    // The receiver was evaluated, so the two steps before it were there to
    // take.
    evaluation_takes_a_step(b, st.tick().tick(), scopes, t.0);
    lemma_type_property_call(b, st, scopes, call, f);
}

/// For every value `v` but `null`, `v->type()` is the name of the type of
/// `v`, as a string, where the types offer `type`.
pub proof fn type_of_every_value(b: Builtins, st: St, scopes: Seq<ScopeRef>, call: Expr)
    requires
        type_call(call) is Some,
        ({
            let t = type_call(call)->0;
            let (st1, r) = eval_expr_spec(b, st.tick().tick(), scopes, t.0);
            r matches Ok(v) && offers(b, st1, v.v, t.1, BuiltinFunc::AnyType)
        }),
    ensures
        ({
            let t = type_call(call)->0;
            let (st1, r) = eval_expr_spec(b, st.tick().tick(), scopes, t.0);
            eval_expr_spec(b, st, scopes, call) == (
                st1,
                Ok::<SVal, Failure>(unsourced(Val::Str(encode_utf8(type_text(r->Ok_0.v))))),
            )
        }),
{
    let t = type_call(call)->0;
    let (st1, r) = eval_expr_spec(b, st.tick().tick(), scopes, t.0);
    type_property_call(b, st, scopes, call, BuiltinFunc::AnyType);
    type_gives_the_type_name(st1, unsourced(r->Ok_0.v));
}

/// For every string `s`, `s->len()` is the number of its bytes, where
/// strings offer `len`.
pub proof fn len_of_every_string(b: Builtins, st: St, scopes: Seq<ScopeRef>, call: Expr)
    requires
        type_call(call) is Some,
        ({
            let t = type_call(call)->0;
            let (st1, r) = eval_expr_spec(b, st.tick().tick(), scopes, t.0);
            r matches Ok(v) && (v.v matches Val::Str(raw) && raw.len() <= i64::MAX) && offers(
                b,
                st1,
                v.v,
                t.1,
                BuiltinFunc::StrLen,
            )
        }),
    ensures
        ({
            let t = type_call(call)->0;
            let (st1, r) = eval_expr_spec(b, st.tick().tick(), scopes, t.0);
            eval_expr_spec(b, st, scopes, call) == (
                st1,
                Ok::<SVal, Failure>(unsourced(Val::Int(r->Ok_0.v->Str_0.len() as i64))),
            )
        }),
{
    let t = type_call(call)->0;
    let (st1, r) = eval_expr_spec(b, st.tick().tick(), scopes, t.0);
    type_property_call(b, st, scopes, call, BuiltinFunc::StrLen);
    len_gives_the_number_of_bytes(st1, r->Ok_0.v->Str_0, None);
}

/// For every list `xs`, `xs->len()` is the number of its items, where lists
/// offer `len`.
pub proof fn len_of_every_list(b: Builtins, st: St, scopes: Seq<ScopeRef>, call: Expr)
    requires
        type_call(call) is Some,
        ({
            let t = type_call(call)->0;
            let (st1, r) = eval_expr_spec(b, st.tick().tick(), scopes, t.0);
            r matches Ok(v) && (v.v matches Val::List(xs) && st1.lists[xs as int].len()
                <= i64::MAX) && offers(b, st1, v.v, t.1, BuiltinFunc::ListLen)
        }),
    ensures
        ({
            let t = type_call(call)->0;
            let (st1, r) = eval_expr_spec(b, st.tick().tick(), scopes, t.0);
            eval_expr_spec(b, st, scopes, call) == (
                st1,
                Ok::<SVal, Failure>(
                    unsourced(Val::Int(st1.lists[r->Ok_0.v->List_0 as int].len() as i64)),
                ),
            )
        }),
{
    let t = type_call(call)->0;
    let (st1, r) = eval_expr_spec(b, st.tick().tick(), scopes, t.0);
    type_property_call(b, st, scopes, call, BuiltinFunc::ListLen);
    len_gives_the_number_of_items(st1, r->Ok_0.v->List_0, None);
}

/// What one type offers, when it offers `type` and `len`.
proof fn lemma_type_with_len(prefix: Seq<char>, len: BuiltinFunc)
    ensures
        lookup(put_all(seq![], type_namespace(prefix, Some(len)), 0), "type"@) == Some(
            native(prefix + "->type"@, BuiltinFunc::AnyType),
        ),
        lookup(put_all(seq![], type_namespace(prefix, Some(len)), 0), "len"@) == Some(
            native(prefix + "->len"@, len),
        ),
{
    reveal_strlit("type");
    reveal_strlit("len");
    assert("len"@ != "type"@) by {
        assert("len"@.len() == 3);
        assert("type"@.len() == 4);
    }
    let funcs = type_namespace(prefix, Some(len));
    let empty = Seq::<(Seq<char>, SVal)>::empty();
    reveal_with_fuel(put_all, 3);
    assert(sorted(empty));
    lemma_put(empty, funcs[0].0, funcs[0].1);
    let one = put(empty, funcs[0].0, funcs[0].1);
    lemma_put(one, funcs[1].0, funcs[1].1);
    assert(put_all(empty, funcs, 0) == put(one, funcs[1].0, funcs[1].1));
}

/// What one type offers, when it offers `type` alone.
proof fn lemma_type_only(prefix: Seq<char>, name: Seq<char>)
    ensures
        lookup(put_all(seq![], type_namespace(prefix, None), 0), "type"@) == Some(
            native(prefix + "->type"@, BuiltinFunc::AnyType),
        ),
        name != "type"@ ==> lookup(put_all(seq![], type_namespace(prefix, None), 0), name)
            is None,
{
    let funcs = type_namespace(prefix, None);
    let empty = Seq::<(Seq<char>, SVal)>::empty();
    reveal_with_fuel(put_all, 2);
    assert(sorted(empty));
    lemma_put(empty, funcs[0].0, funcs[0].1);
    assert(put_all(empty, funcs, 0) == put(empty, funcs[0].0, funcs[0].1));
    assert(!has_key(empty, name));
}

/// The builtins that [`new_builtins_spec`] makes offer `type` for every
/// type that has functions, and `len` for strings and lists and for no
/// other type.
pub proof fn builtins_offer_the_type_functions(st: St, v: Val)
    requires
        st.objects.len() == 0,
        !(v is Null),
    ensures
        ({
            let (st1, b) = new_builtins_spec(st);
            &&& b.ok(st1)
            &&& offers(b, st1, v, "type"@, BuiltinFunc::AnyType)
            &&& v is Str ==> offers(b, st1, v, "len"@, BuiltinFunc::StrLen)
            &&& v is List ==> offers(b, st1, v, "len"@, BuiltinFunc::ListLen)
            &&& !(v is Str) && !(v is List) ==> (namespace_spec(b, v, true, (0, 0)) matches Ok(ns)
                && lookup(st1.objects[ns as int], "len"@) is None)
        }),
{
    let (st1, b) = new_builtins_spec(st);
    reveal_strlit("type");
    reveal_strlit("len");
    assert("len"@ != "type"@) by {
        assert("len"@.len() == 3);
        assert("type"@.len() == 4);
    }
    lemma_type_only("bool"@, "len"@);
    lemma_type_only("int"@, "len"@);
    lemma_type_only("object"@, "len"@);
    lemma_type_only("func"@, "len"@);
    lemma_type_with_len("str"@, BuiltinFunc::StrLen);
    lemma_type_with_len("list"@, BuiltinFunc::ListLen);
}

/// The type functions are read-only: whatever is evaluated, run or bound,
/// the objects of the builtins are afterwards what they were before, and
/// what a type offered it still offers.
pub proof fn type_functions_stay(
    b: Builtins,
    before: St,
    later: St,
    v: Val,
    name: Seq<char>,
    f: BuiltinFunc,
)
    requires
        b.ok(before),
        before.grows_to(later),
    ensures
        b.ok(later),
        later.objects[b.std as int] == before.objects[b.std as int],
        later.objects[b.type_functions.bools as int] == before.objects[b.type_functions.bools
            as int],
        later.objects[b.type_functions.ints as int] == before.objects[b.type_functions.ints as int],
        later.objects[b.type_functions.strs as int] == before.objects[b.type_functions.strs as int],
        later.objects[b.type_functions.lists as int] == before.objects[b.type_functions.lists
            as int],
        later.objects[b.type_functions.objects as int] == before.objects[b.type_functions.objects
            as int],
        later.objects[b.type_functions.funcs as int] == before.objects[b.type_functions.funcs
            as int],
        offers(b, before, v, name, f) ==> offers(b, later, v, name, f),
{
}

/// The two operands of a comparison `e == e` or `e != e`, where both are
/// the same expression.
pub open spec fn self_comparison(e: Expr) -> Option<(BinaryOp, Location, Expr)> {
    match e.0 {
        RawExpr::BinaryOp { op, op_loc, lhs, rhs } => if *lhs == *rhs && (op == BinaryOp::Eq || op
            == BinaryOp::Ne) {
            Some((op, op_loc, *lhs))
        } else {
            None
        },
        _ => None,
    }
}

/// For an expression `e` without side effects, `e == e` is `true` and
/// `e != e` is `false`: where `e`, evaluated twice in a row, gives the same
/// value both times, and that value can be compared. The comparison takes
/// one step; a machine that has none left after the second evaluation fails
/// for want of it, at the operator.
pub proof fn expression_equals_itself(b: Builtins, st: St, scopes: Seq<ScopeRef>, e: Expr)
    requires
        self_comparison(e) is Some,
        ({
            let c = self_comparison(e)->0;
            let (st1, r1) = eval_expr_spec(b, st.tick(), scopes, c.2);
            let (st2, r2) = eval_expr_spec(b, st1, scopes, c.2);
            r1 matches Ok(v) && r2 == r1 && comparable(v.v)
        }),
    ensures
        ({
            let c = self_comparison(e)->0;
            let (st1, r1) = eval_expr_spec(b, st.tick(), scopes, c.2);
            let (st2, r2) = eval_expr_spec(b, st1, scopes, c.2);
            eval_expr_spec(b, st, scopes, e) == if st2.fuel > 0 {
                (st2.tick(), Ok::<SVal, Failure>(unsourced(Val::Bool(c.0 == BinaryOp::Eq))))
            } else {
                (
                    st2,
                    Err::<SVal, Failure>(
                        Failure::StepLimitReached.at(c.1).within(Context::ApplyBinOpFailed),
                    ),
                )
            }
        }),
{
    reveal(eval_expr_spec);
    reveal(eval_binary_op_spec);
    let c = self_comparison(e)->0;
    let (st1, r1) = eval_expr_spec(b, st.tick(), scopes, c.2);
    let (st2, r2) = eval_expr_spec(b, st1, scopes, c.2);
    evaluation_takes_a_step(b, st.tick(), scopes, c.2);
    steps_eval_expr(b, st.tick(), scopes, c.2);
    steps_eval_expr(b, st1, scopes, c.2);
    value_equals_itself(st2, c.1, r1->Ok_0.v);
    match e.0 {
        RawExpr::BinaryOp { op, op_loc, lhs, rhs } => {
            assert(eval_binary_op_spec(b, st.tick(), scopes, op, op_loc, *lhs, *rhs)
                == eval_expr_spec(b, st, scopes, e));
        },
        _ => {},
    }
}

/// The operator, its place and the operands of a sum `l + r`.
pub open spec fn sum_of(e: Expr) -> Option<(Location, Expr, Expr)> {
    match e.0 {
        RawExpr::BinaryOp { op, op_loc, lhs, rhs } => if op == BinaryOp::Sum {
            Some((op_loc, *lhs, *rhs))
        } else {
            None
        },
        _ => None,
    }
}

/// `l + r`, where `l` gives the integer `i` and `r` the integer `j`, is
/// `i + j` if that is an integer of the language, and else an overflow
/// raised at the operator: the sum errs exactly when it lies outside the
/// range of the integers.
pub proof fn sum_of_integers(b: Builtins, st: St, scopes: Seq<ScopeRef>, e: Expr, i: i64, j: i64)
    requires
        sum_of(e) is Some,
        ({
            let s = sum_of(e)->0;
            let (st1, r1) = eval_expr_spec(b, st.tick(), scopes, s.1);
            let (st2, r2) = eval_expr_spec(b, st1, scopes, s.2);
            (r1 matches Ok(l) && l.v == Val::Int(i)) && (r2 matches Ok(r) && r.v == Val::Int(j))
        }),
    ensures
        ({
            let s = sum_of(e)->0;
            let (st1, r1) = eval_expr_spec(b, st.tick(), scopes, s.1);
            let (st2, r2) = eval_expr_spec(b, st1, scopes, s.2);
            eval_expr_spec(b, st, scopes, e) == (
                st2,
                if in_i64(i + j) {
                    Ok::<SVal, Failure>(unsourced(Val::Int((i + j) as i64)))
                } else {
                    Err::<SVal, Failure>(
                        Failure::IntOverflow { op: BinaryOp::Sum, lhs: i, rhs: j }.at(s.0).within(
                            Context::ApplyBinOpFailed,
                        ),
                    )
                },
            )
        }),
{
    reveal(eval_expr_spec);
    reveal(eval_binary_op_spec);
    let s = sum_of(e)->0;
    let (st1, r1) = eval_expr_spec(b, st.tick(), scopes, s.1);
    let (st2, r2) = eval_expr_spec(b, st1, scopes, s.2);
    evaluation_takes_a_step(b, st.tick(), scopes, s.1);
    steps_eval_expr(b, st.tick(), scopes, s.1);
    steps_eval_expr(b, st1, scopes, s.2);
    arithmetic_overflows_exactly_out_of_range(st2, s.0, i, j);
    match e.0 {
        RawExpr::BinaryOp { op, op_loc, lhs, rhs } => {
            assert(eval_binary_op_spec(b, st.tick(), scopes, op, op_loc, *lhs, *rhs)
                == eval_expr_spec(b, st, scopes, e));
        },
        _ => {},
    }
}

} // verus!
