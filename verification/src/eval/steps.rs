//! No step adds steps: whatever is evaluated, run or bound, the machine has
//! no more steps left after it than it had before.

use vstd::prelude::*;

use crate::ast::BinaryOp;
use crate::ast::Block;
use crate::ast::Branch;
use crate::ast::Expr;
use crate::ast::ListItem;
use crate::ast::Location;
use crate::ast::ParsedSlot;
use crate::ast::Prog;
use crate::ast::PropItem;
use crate::ast::RawExpr;
use crate::ast::Stmt;
use crate::builtins::fns::render_items_spec;
use crate::builtins::fns::render_props_spec;
use crate::builtins::fns::render_spec;
use crate::builtins::type_functions::call_builtin_spec;
use crate::eval::bind::BindType;
use crate::eval::builtins::Builtins;
use crate::eval::error::Context;
use crate::eval::machine::ScopeRef;
use crate::eval::ops::apply_binary_operation_spec;
use crate::eval::ops::eq_items_spec;
use crate::eval::ops::eq_props_spec;
use crate::eval::ops::eq_spec;
use crate::eval::ops::value_to_pairs_spec;
use crate::eval::scope::get_spec;
use crate::eval::scope::push_spec;
use crate::eval::semantics::bind_all_spec;
use crate::eval::semantics::bind_index_spec;
use crate::eval::semantics::bind_list_items_spec;
use crate::eval::semantics::bind_list_spec;
use crate::eval::semantics::bind_name_spec;
use crate::eval::semantics::bind_next_spec;
use crate::eval::semantics::bind_object_prop_spec;
use crate::eval::semantics::bind_object_spec;
use crate::eval::semantics::bind_prop_spec;
use crate::eval::semantics::bind_range_index_spec;
use crate::eval::semantics::bind_range_spec;
use crate::eval::semantics::bind_spec;
use crate::eval::semantics::bytes_as_items;
use crate::eval::semantics::call_bindings_spec;
use crate::eval::semantics::call_func_spec;
use crate::eval::semantics::eval_binary_op_spec;
use crate::eval::semantics::eval_bound_spec;
use crate::eval::semantics::eval_call_spec;
use crate::eval::semantics::eval_expr_spec;
use crate::eval::semantics::eval_expr_to_bool_spec;
use crate::eval::semantics::eval_expr_to_i64_spec;
use crate::eval::semantics::eval_expr_to_index_spec;
use crate::eval::semantics::eval_expr_to_str_spec;
use crate::eval::semantics::eval_for_spec;
use crate::eval::semantics::eval_if_spec;
use crate::eval::semantics::eval_index_spec;
use crate::eval::semantics::eval_list_items_spec;
use crate::eval::semantics::eval_list_spec;
use crate::eval::semantics::eval_object_spec;
use crate::eval::semantics::eval_prog_spec;
use crate::eval::semantics::eval_prop_spec;
use crate::eval::semantics::eval_read_index_spec;
use crate::eval::semantics::eval_read_key_spec;
use crate::eval::semantics::eval_range_index_spec;
use crate::eval::semantics::eval_range_spec;
use crate::eval::semantics::eval_stmt_spec;
use crate::eval::semantics::eval_stmts_in_new_scope_spec;
use crate::eval::semantics::eval_stmts_spec;
use crate::eval::semantics::eval_stmts_with_scope_stack_spec;
use crate::eval::semantics::eval_while_spec;
use crate::eval::semantics::global_targets;
use crate::eval::semantics::interpolate_string_spec;
use crate::eval::semantics::keys_of;
use crate::eval::semantics::min_args;
use crate::eval::semantics::overwrite_spec;
use crate::eval::semantics::stored_spec;
use crate::eval::semantics::EscapeView;
use crate::eval::semantics::Names;
use crate::eval::semantics::TargetView;
use crate::eval::state::after;
use crate::eval::state::lookup;
use crate::eval::state::put;
use crate::eval::state::put_all;
use crate::eval::state::Entries;
use crate::eval::state::Out;
use crate::eval::state::St;
use crate::eval::value::unsourced;
use crate::eval::value::BuiltinFunc;
use crate::eval::value::FuncRef;
use crate::eval::value::ListRef;
use crate::eval::value::ObjectRef;
use crate::eval::value::SVal;
use crate::eval::value::Val;

verus! {

/// Whether the outcome `out` of a step from `st` left no more steps than
/// `st` had.
pub open spec fn within_budget<T>(st: St, out: Out<T>) -> bool {
    out.0.fuel <= st.fuel
}

/// A step that is within the budget is what [`after`] reads it as.
pub proof fn lemma_after_is_the_outcome<T>(st: St, out: Out<T>)
    requires
        within_budget(st, out),
    ensures
        after(st, out) == out,
{
}

/// [`eq_spec`] adds no steps.
pub proof fn steps_eq(st: St, a: Val, b: Val)
    ensures
        within_budget(st, eq_spec(st, a, b)),
    decreases st.fuel, 0nat, 0nat,
{
    if st.fuel > 0 {
        let s = st.tick();
        match (a, b) {
            (Val::List(x), Val::List(y)) => {
                steps_eq_items(s, s.lists[x as int], s.lists[y as int], 0);
            },
            (Val::Object(x), Val::Object(y)) => {
                steps_eq_props(s, s.objects[x as int], s.objects[y as int], 0);
            },
            _ => {},
        }
    }
}

/// [`eq_items_spec`] adds no steps.
pub proof fn steps_eq_items(st: St, xs: Seq<SVal>, ys: Seq<SVal>, i: int)
    ensures
        within_budget(st, eq_items_spec(st, xs, ys, i)),
    decreases st.fuel, 1nat, xs.len() - i,
{
    if 0 <= i < xs.len() {
        let (st1, r) = after(st, eq_spec(st, xs[i].v, ys[i].v));
        steps_eq_items(st1, xs, ys, i + 1);
    }
}

/// [`eq_props_spec`] adds no steps.
pub proof fn steps_eq_props(st: St, xs: Entries<SVal>, ys: Entries<SVal>, i: int)
    ensures
        within_budget(st, eq_props_spec(st, xs, ys, i)),
    decreases st.fuel, 1nat, xs.len() - i,
{
    if 0 <= i < xs.len() {
        match lookup(ys, xs[i].0) {
            Some(y) => {
                let (st1, r) = after(st, eq_spec(st, xs[i].1.v, y.v));
                steps_eq_props(st1, xs, ys, i + 1);
            },
            None => {},
        }
    }
}

/// [`apply_binary_operation_spec`] adds no steps.
pub proof fn steps_apply(st: St, op: BinaryOp, op_loc: Location, lhs: Val, rhs: Val)
    ensures
        within_budget(st, apply_binary_operation_spec(st, op, op_loc, lhs, rhs)),
{
    steps_eq(st, lhs, rhs);
}

/// [`stored_spec`] adds no steps.
pub proof fn steps_stored(
    st: St,
    cur: SVal,
    rhs: SVal,
    op: Option<(BinaryOp, Location)>,
    context: Context,
)
    ensures
        within_budget(st, stored_spec(st, cur, rhs, op, context)),
{
    if let Some(o) = op {
        steps_apply(st, o.0, o.1, cur.v, rhs.v);
    }
}

/// [`render_spec`] adds no steps.
pub proof fn steps_render(st: St, v: Val)
    ensures
        within_budget(st, render_spec(st, v)),
    decreases st.fuel, 0nat, 0nat,
{
    if st.fuel > 0 {
        let s = st.tick();
        match v {
            Val::List(r) => {
                steps_render_items(s, s.lists[r as int], 0, vstd::utf8::encode_utf8("[\n"@));
            },
            Val::Object(r) => {
                steps_render_props(s, s.objects[r as int], 0, vstd::utf8::encode_utf8("{\n"@));
            },
            _ => {},
        }
    }
}

/// [`render_items_spec`] adds no steps.
pub proof fn steps_render_items(st: St, items: Seq<SVal>, i: int, acc: Seq<u8>)
    ensures
        within_budget(st, render_items_spec(st, items, i, acc)),
    decreases st.fuel, 1nat, items.len() - i,
{
    if 0 <= i < items.len() {
        let (st1, r) = after(st, render_spec(st, items[i].v));
        if let Ok(bytes) = r {
            steps_render_items(
                st1,
                items,
                i + 1,
                acc + vstd::utf8::encode_utf8("    "@) + crate::builtins::fns::indent(bytes)
                    + vstd::utf8::encode_utf8(",\n"@),
            );
        }
    }
}

/// [`render_props_spec`] adds no steps.
pub proof fn steps_render_props(st: St, es: Entries<SVal>, i: int, acc: Seq<u8>)
    ensures
        within_budget(st, render_props_spec(st, es, i, acc)),
    decreases st.fuel, 1nat, es.len() - i,
{
    if 0 <= i < es.len() {
        let (st1, r) = after(st, render_spec(st, es[i].1.v));
        if let Ok(bytes) = r {
            steps_render_props(
                st1,
                es,
                i + 1,
                acc + vstd::utf8::encode_utf8("    \""@) + vstd::utf8::encode_utf8(es[i].0)
                    + vstd::utf8::encode_utf8("\": "@) + crate::builtins::fns::indent(bytes)
                    + vstd::utf8::encode_utf8(",\n"@),
            );
        }
    }
}

/// [`call_builtin_spec`] adds no steps.
pub proof fn steps_call_builtin(st: St, f: BuiltinFunc, this: Option<SVal>, args: Seq<SVal>)
    ensures
        within_budget(st, call_builtin_spec(st, f, this, args)),
{
    if f == BuiltinFunc::Print {
        steps_render(st, args[0].v);
    }
}

/// [`overwrite_spec`] adds no steps.
pub proof fn steps_overwrite(st: St, r: ListRef, start: int, items: Seq<SVal>, i: int)
    ensures
        overwrite_spec(st, r, start, items, i).fuel == st.fuel,
    decreases items.len() - i,
{
    if 0 <= i < items.len() {
        steps_overwrite(st.set_item(r as int, start + i, items[i]), r, start, items, i + 1);
    }
}

/// Evaluating an expression takes a step: where it gives a value, fewer
/// steps are left than before.
pub proof fn steps_eval_expr(b: Builtins, st: St, scopes: Seq<ScopeRef>, e: Expr)
    ensures
        within_budget(st, eval_expr_spec(b, st, scopes, e)),
        eval_expr_spec(b, st, scopes, e).1 is Ok ==> eval_expr_spec(b, st, scopes, e).0.fuel
            < st.fuel,
    decreases st.fuel, 0nat, 0nat,
{
    reveal(eval_expr_spec);
    reveal(interpolate_string_spec);
    reveal(eval_binary_op_spec);
    reveal(eval_list_spec);
    reveal(eval_object_spec);
    reveal(eval_index_spec);
    reveal(eval_range_index_spec);
    reveal(eval_range_spec);
    reveal(eval_prop_spec);
    reveal(eval_call_spec);
    if st.fuel > 0 {
        let s = st.tick();
        let loc = e.1;
        match e.0 {
            RawExpr::Str { s: text, interpolation_slots } => {
                if let Some(slots) = interpolation_slots {
                    steps_interpolate_string(
                        b,
                        s,
                        scopes,
                        vstd::utf8::encode_utf8(text@),
                        slots@,
                        0,
                        0,
                        seq![],
                        loc,
                    );
                }
            },
            RawExpr::BinaryOp { op, op_loc, lhs, rhs } => {
                steps_eval_binary_op(b, s, scopes, op, op_loc, *lhs, *rhs);
            },
            RawExpr::List { items, collect } => {
                steps_eval_list(b, s, scopes, items@, collect, loc);
            },
            RawExpr::Object { props } => {
                steps_eval_object(b, s, scopes, props@, 0, seq![], loc);
            },
            RawExpr::Index { expr, location } => {
                steps_eval_index(b, s, scopes, *expr, *location, loc);
            },
            RawExpr::RangeIndex { expr, start, end } => {
                steps_eval_range_index(b, s, scopes, *expr, start, end, loc);
            },
            RawExpr::Range { start, end } => {
                steps_eval_range(b, s, scopes, *start, *end);
            },
            RawExpr::Prop { expr, name, type_prop } => {
                steps_eval_prop(b, s, scopes, *expr, name@, type_prop, loc);
            },
            RawExpr::Call { func, args } => {
                steps_eval_call(b, s, scopes, *func, args@, loc);
            },
            _ => {},
        }
    }
}

/// [`eval_binary_op_spec`] adds no steps.
pub proof fn steps_eval_binary_op(
    b: Builtins,
    st: St,
    scopes: Seq<ScopeRef>,
    op: BinaryOp,
    op_loc: Location,
    lhs: Expr,
    rhs: Expr,
)
    ensures
        within_budget(st, eval_binary_op_spec(b, st, scopes, op, op_loc, lhs, rhs)),
    decreases st.fuel, 20nat, 0nat,
{
    reveal(eval_binary_op_spec);
    reveal(eval_expr_spec);
    let (st1, r1) = after(st, eval_expr_spec(b, st, scopes, lhs));
    if let Ok(l) = r1 {
        let (st2, r2) = after(st1, eval_expr_spec(b, st1, scopes, rhs));
        if let Ok(r) = r2 {
            steps_apply(st2, op, op_loc, l.v, r.v);
        }
    }
}

/// [`eval_list_items_spec`] adds no steps.
pub proof fn steps_eval_list_items(
    b: Builtins,
    st: St,
    scopes: Seq<ScopeRef>,
    items: Seq<ListItem>,
    i: int,
    acc: Seq<SVal>,
)
    ensures
        within_budget(st, eval_list_items_spec(b, st, scopes, items, i, acc)),
    decreases st.fuel, 3nat, items.len() - i,
{
    reveal(eval_list_items_spec);
    reveal(eval_expr_spec);
    if 0 <= i < items.len() {
        let item = items[i];
        let (st1, r) = after(st, eval_expr_spec(b, st, scopes, item.expr));
        if let Ok(v) = r {
            if !item.is_spread {
                steps_eval_list_items(b, st1, scopes, items, i + 1, acc.push(v));
            } else if let Val::List(list) = v.v {
                steps_eval_list_items(b, st1, scopes, items, i + 1, acc + st1.lists[list as int]);
            }
        }
    }
}

/// [`eval_list_spec`] adds no steps.
pub proof fn steps_eval_list(
    b: Builtins,
    st: St,
    scopes: Seq<ScopeRef>,
    items: Seq<ListItem>,
    collect: bool,
    loc: Location,
)
    ensures
        within_budget(st, eval_list_spec(b, st, scopes, items, collect, loc)),
    decreases st.fuel, 20nat, 0nat,
{
    reveal(eval_list_spec);
    reveal(eval_list_items_spec);
    if !collect {
        steps_eval_list_items(b, st, scopes, items, 0, seq![]);
    }
}

/// [`eval_object_spec`] adds no steps.
pub proof fn steps_eval_object(
    b: Builtins,
    st: St,
    scopes: Seq<ScopeRef>,
    props: Seq<PropItem>,
    i: int,
    acc: Entries<SVal>,
    loc: Location,
)
    ensures
        within_budget(st, eval_object_spec(b, st, scopes, props, i, acc, loc)),
    decreases st.fuel, 3nat, props.len() - i,
{
    reveal(eval_object_spec);
    reveal(eval_expr_spec);
    reveal(eval_expr_to_str_spec);
    if 0 <= i < props.len() {
        match props[i] {
            PropItem::Pair { name, value } => {
                let (st1, rn) = after(
                    st,
                    eval_expr_to_str_spec(b, st, scopes, "property name"@, name),
                );
                if let Ok(key) = rn {
                    let (st2, rv) = after(st1, eval_expr_spec(b, st1, scopes, value));
                    if let Ok(v) = rv {
                        steps_eval_object(b, st2, scopes, props, i + 1, put(acc, key, v), loc);
                    }
                }
            },
            PropItem::Single { expr, is_spread, collect } => {
                if !collect {
                    if is_spread {
                        let (st1, r) = after(st, eval_expr_spec(b, st, scopes, expr));
                        if let Ok(v) = r {
                            if let Val::Object(o) = v.v {
                                steps_eval_object(
                                    b,
                                    st1,
                                    scopes,
                                    props,
                                    i + 1,
                                    put_all(acc, st1.objects[o as int], 0),
                                    loc,
                                );
                            }
                        }
                    } else if let RawExpr::Var { name } = expr.0 {
                        if let Some(v) = get_spec(st, scopes, name@) {
                            steps_eval_object(
                                b,
                                st,
                                scopes,
                                props,
                                i + 1,
                                put(acc, name@, v),
                                loc,
                            );
                        }
                    }
                }
            },
        }
    }
}

/// [`eval_expr_to_str_spec`] adds no steps.
pub proof fn steps_eval_expr_to_str(
    b: Builtins,
    st: St,
    scopes: Seq<ScopeRef>,
    descr: Seq<char>,
    e: Expr,
)
    ensures
        within_budget(st, eval_expr_to_str_spec(b, st, scopes, descr, e)),
    decreases st.fuel, 1nat, 0nat,
{
    reveal(eval_expr_to_str_spec);
    reveal(eval_expr_spec);
    steps_eval_expr(b, st, scopes, e);
}

/// [`eval_expr_to_bool_spec`] adds no steps.
pub proof fn steps_eval_expr_to_bool(
    b: Builtins,
    st: St,
    scopes: Seq<ScopeRef>,
    descr: Seq<char>,
    e: Expr,
)
    ensures
        within_budget(st, eval_expr_to_bool_spec(b, st, scopes, descr, e)),
        eval_expr_to_bool_spec(b, st, scopes, descr, e).1 is Ok ==> eval_expr_to_bool_spec(
            b,
            st,
            scopes,
            descr,
            e,
        ).0.fuel < st.fuel,
    decreases st.fuel, 1nat, 0nat,
{
    reveal(eval_expr_to_bool_spec);
    reveal(eval_expr_spec);
    steps_eval_expr(b, st, scopes, e);
}

/// [`eval_expr_to_i64_spec`] adds no steps.
pub proof fn steps_eval_expr_to_i64(
    b: Builtins,
    st: St,
    scopes: Seq<ScopeRef>,
    descr: Seq<char>,
    e: Expr,
)
    ensures
        within_budget(st, eval_expr_to_i64_spec(b, st, scopes, descr, e)),
    decreases st.fuel, 1nat, 0nat,
{
    reveal(eval_expr_to_i64_spec);
    reveal(eval_expr_spec);
    steps_eval_expr(b, st, scopes, e);
}

/// [`eval_expr_to_index_spec`] adds no steps.
pub proof fn steps_eval_expr_to_index(b: Builtins, st: St, scopes: Seq<ScopeRef>, e: Expr)
    ensures
        within_budget(st, eval_expr_to_index_spec(b, st, scopes, e)),
    decreases st.fuel, 2nat, 0nat,
{
    reveal(eval_expr_to_index_spec);
    reveal(eval_expr_to_i64_spec);
    steps_eval_expr_to_i64(b, st, scopes, "index"@, e);
}

/// [`eval_bound_spec`] adds no steps.
pub proof fn steps_eval_bound(
    b: Builtins,
    st: St,
    scopes: Seq<ScopeRef>,
    e: Option<Box<Expr>>,
    context: Context,
)
    ensures
        within_budget(st, eval_bound_spec(b, st, scopes, e, context)),
    decreases st.fuel, 3nat, 0nat,
{
    reveal(eval_bound_spec);
    reveal(eval_expr_to_index_spec);
    if let Some(e) = e {
        steps_eval_expr_to_index(b, st, scopes, *e);
    }
}

/// [`eval_read_index_spec`] adds no steps.
pub proof fn steps_eval_read_index(
    b: Builtins,
    st: St,
    scopes: Seq<ScopeRef>,
    e: Expr,
    loc: Location,
)
    ensures
        within_budget(st, eval_read_index_spec(b, st, scopes, e, loc)),
    decreases st.fuel, 2nat, 0nat,
{
    reveal(eval_read_index_spec);
    reveal(eval_expr_spec);
    steps_eval_expr(b, st, scopes, e);
}

/// [`eval_read_key_spec`] adds no steps.
pub proof fn steps_eval_read_key(b: Builtins, st: St, scopes: Seq<ScopeRef>, e: Expr, loc: Location)
    ensures
        within_budget(st, eval_read_key_spec(b, st, scopes, e, loc)),
    decreases st.fuel, 2nat, 0nat,
{
    reveal(eval_read_key_spec);
    reveal(eval_expr_spec);
    steps_eval_expr(b, st, scopes, e);
}

/// [`eval_index_spec`] adds no steps.
pub proof fn steps_eval_index(
    b: Builtins,
    st: St,
    scopes: Seq<ScopeRef>,
    expr: Expr,
    location: Expr,
    loc: Location,
)
    ensures
        within_budget(st, eval_index_spec(b, st, scopes, expr, location, loc)),
    decreases st.fuel, 20nat, 0nat,
{
    reveal(eval_index_spec);
    reveal(eval_expr_spec);
    reveal(eval_read_index_spec);
    reveal(eval_read_key_spec);
    let (st1, r) = after(st, eval_expr_spec(b, st, scopes, expr));
    if let Ok(source_val) = r {
        match source_val.v {
            Val::Str(_) => {
                steps_eval_read_index(b, st1, scopes, location, loc);
            },
            Val::List(_) => {
                steps_eval_read_index(b, st1, scopes, location, loc);
            },
            Val::Object(_) => {
                steps_eval_read_key(b, st1, scopes, location, loc);
            },
            _ => {},
        }
    }
}

/// [`eval_range_index_spec`] adds no steps.
pub proof fn steps_eval_range_index(
    b: Builtins,
    st: St,
    scopes: Seq<ScopeRef>,
    expr: Expr,
    start: Option<Box<Expr>>,
    end: Option<Box<Expr>>,
    loc: Location,
)
    ensures
        within_budget(st, eval_range_index_spec(b, st, scopes, expr, start, end, loc)),
    decreases st.fuel, 20nat, 0nat,
{
    reveal(eval_range_index_spec);
}

/// [`eval_range_spec`] adds no steps.
pub proof fn steps_eval_range(b: Builtins, st: St, scopes: Seq<ScopeRef>, start: Expr, end: Expr)
    ensures
        within_budget(st, eval_range_spec(b, st, scopes, start, end)),
    decreases st.fuel, 20nat, 0nat,
{
    reveal(eval_range_spec);
    reveal(eval_expr_to_i64_spec);
    let (st1, rs) = after(st, eval_expr_to_i64_spec(b, st, scopes, "range start"@, start));
    if rs is Ok {
        steps_eval_expr_to_i64(b, st1, scopes, "range end"@, end);
    }
}

/// [`eval_prop_spec`] adds no steps.
pub proof fn steps_eval_prop(
    b: Builtins,
    st: St,
    scopes: Seq<ScopeRef>,
    expr: Expr,
    name: Seq<char>,
    type_prop: bool,
    loc: Location,
)
    ensures
        within_budget(st, eval_prop_spec(b, st, scopes, expr, name, type_prop, loc)),
    decreases st.fuel, 20nat, 0nat,
{
    reveal(eval_prop_spec);
    reveal(eval_expr_spec);
    steps_eval_expr(b, st, scopes, expr);
}

/// [`eval_call_spec`] adds no steps.
pub proof fn steps_eval_call(
    b: Builtins,
    st: St,
    scopes: Seq<ScopeRef>,
    func: Expr,
    args: Seq<ListItem>,
    loc: Location,
)
    ensures
        within_budget(st, eval_call_spec(b, st, scopes, func, args, loc)),
    decreases st.fuel, 20nat, 0nat,
{
    reveal(eval_call_spec);
    reveal(eval_list_items_spec);
    reveal(eval_expr_spec);
    reveal(call_func_spec);
    let (st1, ra) = after(st, eval_list_items_spec(b, st, scopes, args, 0, seq![]));
    if let Ok(arg_vals) = ra {
        let (st2, rf) = after(st1, eval_expr_spec(b, st1, scopes, func));
        if let Ok(func_val) = rf {
            match func_val.v {
                Val::BuiltinFunc { name, f } => {
                    let this = match func_val.source {
                        Some(s) => Some(unsourced(s)),
                        None => None,
                    };
                    steps_call_builtin(st2, f, this, arg_vals);
                },
                Val::Func(fr) => {
                    steps_call_func(b, st2, fr, arg_vals, func_val.source, loc);
                },
                _ => {},
            }
        }
    }
}

/// [`call_func_spec`] adds no steps.
pub proof fn steps_call_func(
    b: Builtins,
    st: St,
    fr: FuncRef,
    args: Seq<SVal>,
    this: Option<Val>,
    loc: Location,
)
    ensures
        within_budget(st, call_func_spec(b, st, fr, args, this, loc)),
    decreases st.fuel, 19nat, 0nat,
{
    reveal(call_func_spec);
    reveal(eval_stmts_spec);
    let f = st.funcs[fr as int];
    let got = args.len() as usize;
    if !(f.collect_args && min_args(f) > got) && !(!f.collect_args && f.args.len() != got) {
        let st1 = if f.collect_args && f.args.len() > 0 {
            st.with_list(args.subrange(min_args(f) as int, got as int))
        } else {
            st
        };
        let bindings = call_bindings_spec(f, args, st.lists.len() as usize, this);
        steps_eval_stmts(b, st1, f.closure, bindings, f.stmts);
    }
}

/// [`interpolate_string_spec`] adds no steps.
pub proof fn steps_interpolate_string(
    b: Builtins,
    st: St,
    scopes: Seq<ScopeRef>,
    s: Seq<u8>,
    slots: Seq<ParsedSlot>,
    i: int,
    last_end: int,
    acc: Seq<u8>,
    loc: Location,
)
    ensures
        within_budget(st, interpolate_string_spec(b, st, scopes, s, slots, i, last_end, acc, loc)),
    decreases st.fuel, 3nat, slots.len() - i,
{
    reveal(interpolate_string_spec);
    reveal(eval_expr_spec);
    if 0 <= i < slots.len() {
        let slot = slots[i];
        if 0 <= last_end <= slot.start && slot.start + 3 <= slot.end && slot.end <= s.len() {
            if let Ok(e) = slot.expr {
                let (st1, r) = after(st, eval_expr_spec(b, st, scopes, *e));
                if let Ok(v) = r {
                    if let Val::Str(raw) = v.v {
                        if vstd::utf8::valid_utf8(raw) {
                            steps_interpolate_string(
                                b,
                                st1,
                                scopes,
                                s,
                                slots,
                                i + 1,
                                slot.end as int,
                                acc + s.subrange(last_end, slot.start as int) + raw,
                                loc,
                            );
                        }
                    }
                }
            }
        }
    }
}

/// [`eval_stmts_spec`] adds no steps.
pub proof fn steps_eval_stmts(
    b: Builtins,
    st: St,
    scopes: Seq<ScopeRef>,
    bindings: Seq<(TargetView, SVal)>,
    stmts: Seq<Stmt>,
)
    ensures
        within_budget(st, eval_stmts_spec(b, st, scopes, bindings, stmts)),
    decreases st.fuel, 6nat, 0nat,
{
    reveal(eval_stmts_spec);
    reveal(bind_all_spec);
    reveal(eval_stmts_with_scope_stack_spec);
    let (st1, new_scopes) = push_spec(st, scopes, seq![]);
    let (st2, r) = after(st1, bind_all_spec(b, st1, new_scopes, bindings, 0));
    if r is Ok {
        steps_eval_stmts_with_scope_stack(b, st2, new_scopes, stmts, 0);
    }
}

/// [`bind_all_spec`] adds no steps.
pub proof fn steps_bind_all(
    b: Builtins,
    st: St,
    scopes: Seq<ScopeRef>,
    bindings: Seq<(TargetView, SVal)>,
    i: int,
)
    ensures
        within_budget(st, bind_all_spec(b, st, scopes, bindings, i)),
    decreases st.fuel, 5nat, bindings.len() - i,
{
    reveal(bind_all_spec);
    reveal(bind_spec);
    if 0 <= i < bindings.len() {
        let (st1, r) = after(
            st,
            match bindings[i].0 {
                TargetView::Pattern(raw, loc) => bind_spec(
                    b,
                    st,
                    scopes,
                    raw,
                    loc,
                    bindings[i].1,
                    BindType::Declaration,
                ),
                TargetView::Name(name, loc) => bind_name_spec(
                    st,
                    scopes,
                    name,
                    loc,
                    bindings[i].1,
                    BindType::Declaration,
                ),
            },
        );
        if r is Ok {
            steps_bind_all(b, st1, scopes, bindings, i + 1);
        }
    }
}

/// [`eval_stmts_with_scope_stack_spec`] adds no steps.
pub proof fn steps_eval_stmts_with_scope_stack(
    b: Builtins,
    st: St,
    scopes: Seq<ScopeRef>,
    stmts: Seq<Stmt>,
    i: int,
)
    ensures
        within_budget(st, eval_stmts_with_scope_stack_spec(b, st, scopes, stmts, i)),
    decreases st.fuel, 5nat, stmts.len() - i,
{
    reveal(eval_stmts_with_scope_stack_spec);
    reveal(eval_stmt_spec);
    if 0 <= i < stmts.len() {
        let (st1, r) = after(st, eval_stmt_spec(b, st, scopes, stmts[i]));
        if r == Ok::<EscapeView, crate::eval::error::Failure>(EscapeView::Nothing) {
            steps_eval_stmts_with_scope_stack(b, st1, scopes, stmts, i + 1);
        }
    }
}

/// [`eval_stmts_in_new_scope_spec`] adds no steps.
pub proof fn steps_eval_stmts_in_new_scope(
    b: Builtins,
    st: St,
    scopes: Seq<ScopeRef>,
    stmts: Seq<Stmt>,
)
    ensures
        within_budget(st, eval_stmts_in_new_scope_spec(b, st, scopes, stmts)),
    decreases st.fuel, 7nat, 0nat,
{
    reveal(eval_stmts_in_new_scope_spec);
    reveal(eval_stmts_spec);
    steps_eval_stmts(b, st, scopes, seq![], stmts);
}

/// [`eval_stmt_spec`] adds no steps.
pub proof fn steps_eval_stmt(b: Builtins, st: St, scopes: Seq<ScopeRef>, stmt: Stmt)
    ensures
        within_budget(st, eval_stmt_spec(b, st, scopes, stmt)),
    decreases st.fuel, 0nat, 0nat,
{
    reveal(eval_stmt_spec);
    reveal(eval_expr_spec);
    reveal(eval_stmts_in_new_scope_spec);
    reveal(bind_spec);
    reveal(bind_next_spec);
    reveal(eval_if_spec);
    reveal(eval_while_spec);
    reveal(eval_for_spec);
    if st.fuel > 0 {
        let s = st.tick();
        match stmt {
            Stmt::Block { block } => {
                steps_eval_stmts_in_new_scope(b, s, scopes, block@);
            },
            Stmt::Expr { expr } => {
                steps_eval_expr(b, s, scopes, expr);
            },
            Stmt::Declare { lhs, rhs } => {
                let (st1, r) = after(s, eval_expr_spec(b, s, scopes, rhs));
                if let Ok(v) = r {
                    steps_bind(b, st1, scopes, lhs.0, lhs.1, v, BindType::Declaration);
                }
            },
            Stmt::Assign { lhs, rhs } => {
                let (st1, r) = after(s, eval_expr_spec(b, s, scopes, rhs));
                if let Ok(v) = r {
                    steps_bind(b, st1, scopes, lhs.0, lhs.1, v, BindType::Assignment);
                }
            },
            Stmt::OpAssign { lhs, op, op_loc, rhs } => {
                let (st1, r) = after(s, eval_expr_spec(b, s, scopes, rhs));
                if let Ok(v) = r {
                    steps_bind_next(
                        b,
                        st1,
                        scopes,
                        seq![],
                        lhs.0,
                        lhs.1,
                        v,
                        Some((op, op_loc)),
                        BindType::Assignment,
                    );
                }
            },
            Stmt::If { branches, else_stmts } => {
                steps_eval_if(b, s, scopes, branches@, 0, else_stmts);
            },
            Stmt::While { cond, stmts } => {
                steps_eval_while(b, s, scopes, cond, stmts@);
            },
            Stmt::For { lhs, iter, stmts } => {
                let (st1, r) = after(s, eval_expr_spec(b, s, scopes, iter));
                if let Ok(iter_val) = r {
                    if let Ok(pairs) = value_to_pairs_spec(st1, iter_val.v) {
                        steps_eval_for(b, st1, scopes, lhs, pairs, 0, stmts@);
                    }
                }
            },
            Stmt::Return { loc, expr } => {
                steps_eval_expr(b, s, scopes, expr);
            },
            _ => {},
        }
    }
}

/// [`eval_if_spec`] adds no steps.
pub proof fn steps_eval_if(
    b: Builtins,
    st: St,
    scopes: Seq<ScopeRef>,
    branches: Seq<Branch>,
    i: int,
    else_stmts: Option<Block>,
)
    ensures
        within_budget(st, eval_if_spec(b, st, scopes, branches, i, else_stmts)),
    decreases st.fuel, 8nat, branches.len() - i,
{
    reveal(eval_if_spec);
    reveal(eval_expr_to_bool_spec);
    reveal(eval_stmts_in_new_scope_spec);
    if 0 <= i < branches.len() {
        let (st1, rb) = after(
            st,
            eval_expr_to_bool_spec(b, st, scopes, "condition"@, branches[i].cond),
        );
        if let Ok(holds) = rb {
            if holds {
                steps_eval_stmts_in_new_scope(b, st1, scopes, branches[i].stmts@);
            } else {
                steps_eval_if(b, st1, scopes, branches, i + 1, else_stmts);
            }
        }
    } else if let Some(stmts) = else_stmts {
        steps_eval_stmts_in_new_scope(b, st, scopes, stmts@);
    }
}

/// [`eval_while_spec`] adds no steps.
pub proof fn steps_eval_while(
    b: Builtins,
    st: St,
    scopes: Seq<ScopeRef>,
    cond: Expr,
    stmts: Seq<Stmt>,
)
    ensures
        within_budget(st, eval_while_spec(b, st, scopes, cond, stmts)),
    decreases st.fuel, 8nat, 0nat,
{
    reveal(eval_while_spec);
    reveal(eval_expr_to_bool_spec);
    reveal(eval_stmts_in_new_scope_spec);
    let (st1, rb) = after(st, eval_expr_to_bool_spec(b, st, scopes, "condition"@, cond));
    if rb == Ok::<bool, crate::eval::error::Failure>(true) {
        let (st2, r) = after(st1, eval_stmts_in_new_scope_spec(b, st1, scopes, stmts));
        if st2.fuel < st.fuel {
            steps_eval_while(b, st2, scopes, cond, stmts);
        }
    }
}

/// [`eval_for_spec`] adds no steps.
pub proof fn steps_eval_for(
    b: Builtins,
    st: St,
    scopes: Seq<ScopeRef>,
    lhs: Expr,
    pairs: Seq<(SVal, SVal)>,
    i: int,
    stmts: Seq<Stmt>,
)
    ensures
        within_budget(st, eval_for_spec(b, st, scopes, lhs, pairs, i, stmts)),
    decreases st.fuel, 8nat, pairs.len() - i,
{
    reveal(eval_for_spec);
    reveal(eval_stmts_spec);
    if 0 <= i < pairs.len() {
        let st1 = st.with_list(seq![pairs[i].0, pairs[i].1]);
        let pair = unsourced(Val::List(st.lists.len() as usize));
        let (st2, r) = after(
            st1,
            eval_stmts_spec(b, st1, scopes, seq![(TargetView::Pattern(lhs.0, lhs.1), pair)], stmts),
        );
        steps_eval_for(b, st2, scopes, lhs, pairs, i + 1, stmts);
    }
}

/// [`eval_prog_spec`] adds no steps.
pub proof fn steps_eval_prog(
    b: Builtins,
    st: St,
    scopes: Seq<ScopeRef>,
    global_bindings: Seq<(RawExpr, SVal)>,
    prog: Prog,
)
    ensures
        within_budget(st, eval_prog_spec(b, st, scopes, global_bindings, prog)),
    decreases st.fuel, 10nat, 0nat,
{
    reveal(eval_prog_spec);
    reveal(eval_stmts_spec);
    match prog {
        Prog::Body { stmts } => {
            steps_eval_stmts(b, st, scopes, global_targets(global_bindings), stmts@);
        },
    }
}

/// [`bind_spec`] adds no steps.
pub proof fn steps_bind(
    b: Builtins,
    st: St,
    scopes: Seq<ScopeRef>,
    raw: RawExpr,
    loc: Location,
    rhs: SVal,
    bind_type: BindType,
)
    ensures
        within_budget(st, bind_spec(b, st, scopes, raw, loc, rhs, bind_type)),
    decreases st.fuel, 4nat, 0nat,
{
    reveal(bind_spec);
    reveal(bind_next_spec);
    steps_bind_next(b, st, scopes, seq![], raw, loc, rhs, None, bind_type);
}

/// [`bind_next_spec`] adds no steps.
pub proof fn steps_bind_next(
    b: Builtins,
    st: St,
    scopes: Seq<ScopeRef>,
    names: Names,
    raw: RawExpr,
    loc: Location,
    rhs: SVal,
    op: Option<(BinaryOp, Location)>,
    bind_type: BindType,
)
    ensures
        within_budget(st, bind_next_spec(b, st, scopes, names, raw, loc, rhs, op, bind_type)),
    decreases st.fuel, 0nat, 0nat,
{
    reveal(bind_next_spec);
    reveal(bind_index_spec);
    reveal(bind_range_spec);
    reveal(bind_prop_spec);
    reveal(bind_object_spec);
    reveal(bind_list_spec);
    if st.fuel > 0 {
        let s = st.tick();
        match raw {
            RawExpr::Var { name } => {
                if let Some(o) = op {
                    if let Some(cur) = get_spec(s, scopes, name@) {
                        steps_apply(s, o.0, o.1, cur.v, rhs.v);
                    }
                }
            },
            RawExpr::Index { expr, location } => {
                steps_bind_index(b, s, scopes, names, *expr, *location, loc, rhs, op);
            },
            RawExpr::RangeIndex { expr, start, end } => {
                if op is None {
                    steps_bind_range(b, s, scopes, *expr, start, end, loc, rhs);
                }
            },
            RawExpr::Prop { expr, name, type_prop } => {
                steps_bind_prop(b, s, scopes, names, *expr, name@, type_prop, loc, rhs, op);
            },
            RawExpr::Object { props } => {
                if op is None {
                    if let Val::Object(r) = rhs.v {
                        steps_bind_object(
                            b,
                            s,
                            scopes,
                            names,
                            props@,
                            r,
                            keys_of(s.objects[r as int]),
                            seq![],
                            0,
                            bind_type,
                        );
                    }
                }
            },
            RawExpr::List { items, collect } => {
                if op is None {
                    if let Val::List(r) = rhs.v {
                        steps_bind_list(b, s, scopes, names, items@, collect, loc, r, bind_type);
                    }
                }
            },
            _ => {},
        }
    }
}

/// [`bind_index_spec`] adds no steps.
pub proof fn steps_bind_index(
    b: Builtins,
    st: St,
    scopes: Seq<ScopeRef>,
    names: Names,
    expr: Expr,
    location: Expr,
    loc: Location,
    rhs: SVal,
    op: Option<(BinaryOp, Location)>,
)
    ensures
        within_budget(st, bind_index_spec(b, st, scopes, names, expr, location, loc, rhs, op)),
    decreases st.fuel, 20nat, 0nat,
{
    reveal(bind_index_spec);
    reveal(eval_expr_spec);
    reveal(eval_expr_to_index_spec);
    reveal(eval_expr_to_str_spec);
    let (st1, r) = after(st, eval_expr_spec(b, st, scopes, expr));
    if let Ok(v) = r {
        match v.v {
            Val::List(items) => {
                steps_eval_expr_to_index(b, st1, scopes, location);
                let (st2, ri) = eval_expr_to_index_spec(b, st1, scopes, location);
                if let Ok(n) = ri {
                    steps_stored(
                        st2,
                        st2.lists[items as int][n as int],
                        rhs,
                        op,
                        Context::BinOpAssignListIndexFailed,
                    );
                }
            },
            Val::Object(props) => {
                steps_eval_expr_to_str(b, st1, scopes, "property"@, location);
                let (st2, rn) = eval_expr_to_str_spec(b, st1, scopes, "property"@, location);
                if let Ok(name) = rn {
                    if let Some(cur) = lookup(st2.objects[props as int], name) {
                        steps_stored(st2, cur, rhs, op, Context::BinOpAssignObjectIndexFailed);
                    }
                }
            },
            _ => {},
        }
    }
}

/// [`bind_prop_spec`] adds no steps.
pub proof fn steps_bind_prop(
    b: Builtins,
    st: St,
    scopes: Seq<ScopeRef>,
    names: Names,
    expr: Expr,
    name: Seq<char>,
    type_prop: bool,
    loc: Location,
    rhs: SVal,
    op: Option<(BinaryOp, Location)>,
)
    ensures
        within_budget(st, bind_prop_spec(b, st, scopes, names, expr, name, type_prop, loc, rhs, op)),
    decreases st.fuel, 20nat, 0nat,
{
    reveal(bind_prop_spec);
    reveal(eval_expr_spec);
    if !type_prop {
        steps_eval_expr(b, st, scopes, expr);
        let (st1, r) = eval_expr_spec(b, st, scopes, expr);
        if let Ok(v) = r {
            if let Val::Object(props) = v.v {
                if let Some(cur) = lookup(st1.objects[props as int], name) {
                    steps_stored(st1, cur, rhs, op, Context::BinOpAssignPropFailed);
                }
            }
        }
    }
}

/// [`bind_range_spec`] adds no steps.
pub proof fn steps_bind_range(
    b: Builtins,
    st: St,
    scopes: Seq<ScopeRef>,
    expr: Expr,
    start: Option<Box<Expr>>,
    end: Option<Box<Expr>>,
    loc: Location,
    rhs: SVal,
)
    ensures
        within_budget(st, bind_range_spec(b, st, scopes, expr, start, end, loc, rhs)),
    decreases st.fuel, 20nat, 0nat,
{
    reveal(bind_range_spec);
    reveal(eval_expr_spec);
    reveal(bind_range_index_spec);
    let (st1, r) = after(st, eval_expr_spec(b, st, scopes, expr));
    if let Ok(v) = r {
        if let Val::List(lhs_items) = v.v {
            match rhs.v {
                Val::List(rhs_items) => {
                    steps_bind_range_index(
                        b,
                        st1,
                        scopes,
                        lhs_items,
                        start,
                        end,
                        loc,
                        st1.lists[rhs_items as int],
                    );
                },
                Val::Str(s) => {
                    steps_bind_range_index(
                        b,
                        st1,
                        scopes,
                        lhs_items,
                        start,
                        end,
                        loc,
                        bytes_as_items(s),
                    );
                },
                _ => {},
            }
        }
    }
}

/// [`bind_range_index_spec`] adds no steps.
pub proof fn steps_bind_range_index(
    b: Builtins,
    st: St,
    scopes: Seq<ScopeRef>,
    lhs_items: ListRef,
    start: Option<Box<Expr>>,
    end: Option<Box<Expr>>,
    loc: Location,
    rhs_items: Seq<SVal>,
)
    ensures
        within_budget(
            st,
            bind_range_index_spec(b, st, scopes, lhs_items, start, end, loc, rhs_items),
        ),
    decreases st.fuel, 4nat, 0nat,
{
    reveal(bind_range_index_spec);
    reveal(eval_bound_spec);
    let (st1, rs) = after(st, eval_bound_spec(b, st, scopes, start, Context::EvalStartIndexFailed));
    if let Ok(maybe_start) = rs {
        steps_eval_bound(b, st1, scopes, end, Context::EvalEndIndexFailed);
        let (st2, re) = eval_bound_spec(b, st1, scopes, end, Context::EvalEndIndexFailed);
        if re is Ok {
            let from = match maybe_start {
                Some(n) => n,
                None => 0,
            };
            steps_overwrite(st2, lhs_items, from as int, rhs_items, 0);
        }
    }
}

/// [`bind_object_spec`] adds no steps.
pub proof fn steps_bind_object(
    b: Builtins,
    st: St,
    scopes: Seq<ScopeRef>,
    names: Names,
    lhs: Seq<PropItem>,
    rhs: ObjectRef,
    initial: Names,
    consumed: Names,
    i: int,
    bind_type: BindType,
)
    ensures
        within_budget(
            st,
            bind_object_spec(b, st, scopes, names, lhs, rhs, initial, consumed, i, bind_type),
        ),
    decreases st.fuel, 4nat, lhs.len() - i,
{
    reveal(bind_object_spec);
    reveal(bind_object_prop_spec);
    reveal(eval_expr_to_str_spec);
    if 0 <= i < lhs.len() {
        match lhs[i] {
            PropItem::Single { expr, is_spread, collect } => {
                if !is_spread {
                    if let RawExpr::Var { name } = expr.0 {
                        if !collect {
                            let (st1, r) = after(
                                st,
                                bind_object_prop_spec(
                                    b,
                                    st,
                                    scopes,
                                    names,
                                    expr.0,
                                    expr.1,
                                    rhs,
                                    name@,
                                    expr.1,
                                    bind_type,
                                ),
                            );
                            if let Ok(names1) = r {
                                steps_bind_object(
                                    b,
                                    st1,
                                    scopes,
                                    names1,
                                    lhs,
                                    rhs,
                                    initial,
                                    consumed.push(name@),
                                    i + 1,
                                    bind_type,
                                );
                            }
                        }
                    }
                }
            },
            PropItem::Pair { name, value } => {
                let (st1, rn) = after(
                    st,
                    eval_expr_to_str_spec(b, st, scopes, "property"@, name),
                );
                if let Ok(prop_name) = rn {
                    let (st2, r) = after(
                        st1,
                        bind_object_prop_spec(
                            b,
                            st1,
                            scopes,
                            names,
                            value.0,
                            value.1,
                            rhs,
                            prop_name,
                            name.1,
                            bind_type,
                        ),
                    );
                    if let Ok(names1) = r {
                        steps_bind_object(
                            b,
                            st2,
                            scopes,
                            names1,
                            lhs,
                            rhs,
                            initial,
                            consumed.push(prop_name),
                            i + 1,
                            bind_type,
                        );
                    }
                }
            },
        }
    }
}

/// [`bind_object_prop_spec`] adds no steps.
pub proof fn steps_bind_object_prop(
    b: Builtins,
    st: St,
    scopes: Seq<ScopeRef>,
    names: Names,
    lhs: RawExpr,
    lhs_loc: Location,
    rhs: ObjectRef,
    prop_name: Seq<char>,
    prop_loc: Location,
    bind_type: BindType,
)
    ensures
        within_budget(
            st,
            bind_object_prop_spec(
                b,
                st,
                scopes,
                names,
                lhs,
                lhs_loc,
                rhs,
                prop_name,
                prop_loc,
                bind_type,
            ),
        ),
    decreases st.fuel, 3nat, 0nat,
{
    reveal(bind_object_prop_spec);
    reveal(bind_next_spec);
    if prop_name != "_"@ {
        if let Some(v) = lookup(st.objects[rhs as int], prop_name) {
            steps_bind_next(b, st, scopes, names, lhs, lhs_loc, v, None, bind_type);
        }
    }
}

/// [`bind_list_spec`] adds no steps.
pub proof fn steps_bind_list(
    b: Builtins,
    st: St,
    scopes: Seq<ScopeRef>,
    names: Names,
    lhs: Seq<ListItem>,
    collect: bool,
    loc: Location,
    rhs: ListRef,
    bind_type: BindType,
)
    ensures
        within_budget(
            st,
            bind_list_spec(b, st, scopes, names, lhs, collect, loc, rhs, bind_type),
        ),
    decreases st.fuel, 5nat, 0nat,
{
    reveal(bind_list_spec);
    reveal(bind_list_items_spec);
    steps_bind_list_items(b, st, scopes, names, lhs, collect, loc, rhs, 0, bind_type);
}

/// [`bind_list_items_spec`] adds no steps.
pub proof fn steps_bind_list_items(
    b: Builtins,
    st: St,
    scopes: Seq<ScopeRef>,
    names: Names,
    lhs: Seq<ListItem>,
    collect: bool,
    loc: Location,
    rhs: ListRef,
    i: int,
    bind_type: BindType,
)
    ensures
        within_budget(
            st,
            bind_list_items_spec(b, st, scopes, names, lhs, collect, loc, rhs, i, bind_type),
        ),
    decreases st.fuel, 4nat, lhs.len() - i,
{
    reveal(bind_list_items_spec);
    reveal(bind_next_spec);
    if 0 <= i < lhs.len() && !lhs[i].is_spread {
        let items = st.lists[rhs as int];
        let (st1, v) = if collect && i == lhs.len() - 1 {
            (
                st.with_list(items.subrange(i, items.len() as int)),
                unsourced(Val::List(st.lists.len() as usize)),
            )
        } else {
            (st, items[i])
        };
        let (st2, r) = after(
            st1,
            bind_next_spec(
                b,
                st1,
                scopes,
                names,
                lhs[i].expr.0,
                lhs[i].expr.1,
                v,
                None,
                bind_type,
            ),
        );
        if let Ok(names1) = r {
            steps_bind_list_items(b, st2, scopes, names1, lhs, collect, loc, rhs, i + 1, bind_type);
        }
    }
}

} // verus!
