//! What a program means: for each kind of expression and statement, the
//! state it leaves and the value, escape or error it gives.
//!
//! Every function here takes the state before a step and returns the state
//! after it with the outcome. The executable evaluator is proved to compute
//! exactly these functions.
//!
//! Evaluating an expression, running a statement and binding a pattern each
//! take one step of the machine's budget; when none is left the outcome is
//! `StepLimitReached`, raised at the place of that expression, statement or
//! pattern.

use vstd::prelude::*;
use vstd::utf8::decode_utf8;
use vstd::utf8::encode_utf8;
use vstd::utf8::valid_utf8;

use crate::ast::BinaryOp;
use crate::ast::Block;
use crate::ast::Branch;
use crate::ast::Expr;
use crate::ast::ListItem;
use crate::ast::Location;
use crate::ast::ParsedSlot;
use crate::ast::Prog;
use crate::ast::PropItem;
use crate::ast::RawExpr;
use crate::ast::Stmt;
use crate::builtins::type_functions::call_builtin_spec;
use crate::eval::bind::BindType;
use crate::eval::builtins::Builtins;
use crate::eval::error::Context;
use crate::eval::error::Failure;
use crate::eval::error::ctx;
use crate::eval::machine::ScopeRef;
use crate::eval::ops::apply_binary_operation_spec;
use crate::eval::ops::get_list_range_index_spec;
use crate::eval::ops::get_str_range_index_spec;
use crate::eval::ops::value_to_pairs_spec;
use crate::eval::place::stmt_place;
use crate::eval::scope::assign_spec;
use crate::eval::scope::declare_spec;
use crate::eval::scope::get_spec;
use crate::eval::scope::push_spec;
use crate::eval::state::Entries;
use crate::eval::state::FuncView;
use crate::eval::state::Out;
use crate::eval::state::St;
use crate::eval::state::after;
use crate::eval::state::lookup;
use crate::eval::state::put;
use crate::eval::state::put_all;
use crate::eval::value::FuncRef;
use crate::eval::value::ListRef;
use crate::eval::value::ObjectRef;
use crate::eval::value::SVal;
use crate::eval::value::Val;
use crate::eval::value::unsourced;
use crate::lexer::slot_text_span;
use crate::text::utf8_error_text;

verus! {

/// How a statement ended, as far as the statements after it are concerned.
pub enum EscapeView {
    /// The statement ran to its end.
    Nothing,
    Break { loc: Location },
    Continue { loc: Location },
    Return { value: SVal, loc: Location },
}

/// What a value is bound to when a scope is entered: a pattern of the
/// program, or a plain name.
pub enum TargetView {
    Pattern(RawExpr, Location),
    Name(Seq<char>, Location),
}

/// The names bound so far by one binding.
pub type Names = Seq<Seq<char>>;

/// `a + b`, or the greatest column if the sum is no column.
pub open spec fn column_add(a: usize, b: int) -> usize {
    if a + b > usize::MAX {
        usize::MAX
    } else {
        (a + b) as usize
    }
}

/// What the evaluator asks of the state it starts from: the state is
/// well-formed, the scopes it runs in are scopes of the machine and there is
/// at least one, and the type functions are objects of the machine.
pub open spec fn ready(b: Builtins, st: St, scopes: Seq<ScopeRef>) -> bool {
    &&& st.wf()
    &&& st.stack_ok(scopes)
    &&& scopes.len() > 0
    &&& b.ok(st)
}

/// The value of the expression `e` in the scopes of `scopes`.
///
/// Only a value read as a property of an object, by name or by index, or as
/// a type property has a source: the value it was read from. A call hands
/// the source of what it calls to the function as its receiver; no other
/// expression passes a source on.
#[verifier::opaque]
pub open spec fn eval_expr_spec(b: Builtins, st: St, scopes: Seq<ScopeRef>, e: Expr) -> Out<SVal>
    decreases st.fuel, 0nat, 0nat,
{
    let loc = e.1;
    if st.fuel == 0 {
        (st, Err(Failure::StepLimitReached.at(loc)))
    } else {
        let st = st.tick();
        match e.0 {
            RawExpr::Null => (st, Ok(unsourced(Val::Null))),
            RawExpr::Bool { b: v } => (st, Ok(unsourced(Val::Bool(v)))),
            RawExpr::Int { n } => (st, Ok(unsourced(Val::Int(n)))),
            RawExpr::Str { s, interpolation_slots } => match interpolation_slots {
                Some(slots) => {
                    let (st1, r) = interpolate_string_spec(
                        b,
                        st,
                        scopes,
                        encode_utf8(s@),
                        slots@,
                        0,
                        0,
                        seq![],
                        loc,
                    );
                    match r {
                        Ok(bytes) => (st1, Ok(unsourced(Val::Str(bytes)))),
                        Err(e) => (st1, Err(e.within(Context::InterpolateStringFailed))),
                    }
                },
                None => (st, Ok(unsourced(Val::Str(encode_utf8(s@))))),
            },
            RawExpr::Var { name } => match get_spec(st, scopes, name@) {
                Some(v) => (st, Ok(unsourced(v.v))),
                None => (st, Err(Failure::Undefined { name: name@ }.at(loc))),
            },
            RawExpr::BinaryOp { op, op_loc, lhs, rhs } => eval_binary_op_spec(
                b,
                st,
                scopes,
                op,
                op_loc,
                *lhs,
                *rhs,
            ),
            RawExpr::List { items, collect } => eval_list_spec(b, st, scopes, items@, collect, loc),
            RawExpr::Object { props } => eval_object_spec(b, st, scopes, props@, 0, seq![], loc),
            RawExpr::Index { expr, location } => eval_index_spec(
                b,
                st,
                scopes,
                *expr,
                *location,
                loc,
            ),
            RawExpr::RangeIndex { expr, start, end } => eval_range_index_spec(
                b,
                st,
                scopes,
                *expr,
                start,
                end,
                loc,
            ),
            RawExpr::Range { start, end } => eval_range_spec(b, st, scopes, *start, *end),
            RawExpr::Prop { expr, name, type_prop } => eval_prop_spec(
                b,
                st,
                scopes,
                *expr,
                name@,
                type_prop,
                loc,
            ),
            RawExpr::Func { args, collect_args, stmts } => (
                st.with_func(
                    FuncView {
                        name: None,
                        args: args@,
                        collect_args,
                        stmts: stmts@,
                        closure: scopes,
                    },
                ),
                Ok(unsourced(Val::Func(st.funcs.len() as usize))),
            ),
            RawExpr::Call { func, args } => {
                let (st1, r) = eval_call_spec(b, st, scopes, *func, args@, loc);
                (st1, ctx(r, Context::EvalCallFailed))
            },
        }
    }
}

/// The value of `lhs op rhs`: the left operand is evaluated first, then the
/// right one, whatever the operator, and then the operator is applied.
#[verifier::opaque]
pub open spec fn eval_binary_op_spec(
    b: Builtins,
    st: St,
    scopes: Seq<ScopeRef>,
    op: BinaryOp,
    op_loc: Location,
    lhs: Expr,
    rhs: Expr,
) -> Out<SVal>
    decreases st.fuel, 20nat, 0nat,
{
    let (st1, r1) = after(st, eval_expr_spec(b, st, scopes, lhs));
    match r1 {
        Err(e) => (st1, Err(e.within(Context::EvalBinOpLhsFailed))),
        Ok(l) => {
            let (st2, r2) = after(st1, eval_expr_spec(b, st1, scopes, rhs));
            match r2 {
                Err(e) => (st2, Err(e.within(Context::EvalBinOpRhsFailed))),
                Ok(r) => {
                    let (st3, r3) = apply_binary_operation_spec(st2, op, op_loc, l.v, r.v);
                    match r3 {
                        Err(e) => (st3, Err(e.within(Context::ApplyBinOpFailed))),
                        Ok(v) => (st3, Ok(unsourced(v))),
                    }
                },
            }
        },
    }
}

/// The values of the items of `items` from `i` on, after those of `acc`:
/// each item gives its value, and a spread item, which must be a list, the
/// items of that list.
#[verifier::opaque]
pub open spec fn eval_list_items_spec(
    b: Builtins,
    st: St,
    scopes: Seq<ScopeRef>,
    items: Seq<ListItem>,
    i: int,
    acc: Seq<SVal>,
) -> Out<Seq<SVal>>
    decreases st.fuel, 3nat, items.len() - i,
{
    if i < 0 || i >= items.len() {
        (st, Ok(acc))
    } else {
        let item = items[i];
        let (st1, r) = after(st, eval_expr_spec(b, st, scopes, item.expr));
        match r {
            Err(e) => (st1, Err(e.within(Context::EvalListItemFailed))),
            Ok(v) => if !item.is_spread {
                eval_list_items_spec(b, st1, scopes, items, i + 1, acc.push(v))
            } else {
                match v.v {
                    Val::List(r) => eval_list_items_spec(
                        b,
                        st1,
                        scopes,
                        items,
                        i + 1,
                        acc + st1.lists[r as int],
                    ),
                    other => (
                        st1,
                        Err(Failure::SpreadNonListInList { value: other }.at(item.expr.1)),
                    ),
                }
            },
        }
    }
}

/// The value of a list literal: a new list of the values of its items. A
/// literal that collects is no expression.
#[verifier::opaque]
pub open spec fn eval_list_spec(
    b: Builtins,
    st: St,
    scopes: Seq<ScopeRef>,
    items: Seq<ListItem>,
    collect: bool,
    loc: Location,
) -> Out<SVal>
    decreases st.fuel, 20nat, 0nat,
{
    if collect {
        (st, Err(Failure::ListCollectOutsideDestructure.at(loc)))
    } else {
        let (st1, r) = eval_list_items_spec(b, st, scopes, items, 0, seq![]);
        match r {
            Err(e) => (st1, Err(e.within(Context::EvalListItemsFailed))),
            Ok(vals) => (st1.with_list(vals), Ok(unsourced(Val::List(st1.lists.len() as usize)))),
        }
    }
}

/// The value of an object literal: a new object that holds `acc` and then
/// what the items of `props` from `i` on put in, each in its turn: a pair
/// its value under its name, a shorthand the variable of that name under
/// it, a spread item every property of the object it gives.
#[verifier::opaque]
pub open spec fn eval_object_spec(
    b: Builtins,
    st: St,
    scopes: Seq<ScopeRef>,
    props: Seq<PropItem>,
    i: int,
    acc: Entries<SVal>,
    loc: Location,
) -> Out<SVal>
    decreases st.fuel, 3nat, props.len() - i,
{
    if i < 0 || i >= props.len() {
        (st.with_object(acc), Ok(unsourced(Val::Object(st.objects.len() as usize))))
    } else {
        match props[i] {
            PropItem::Pair { name, value } => {
                let (st1, rn) = after(
                    st,
                    eval_expr_to_str_spec(b, st, scopes, "property name"@, name),
                );
                match rn {
                    Err(e) => (st1, Err(e.within(Context::EvalPropNameFailed))),
                    Ok(key) => {
                        let (st2, rv) = after(st1, eval_expr_spec(b, st1, scopes, value));
                        match rv {
                            Err(e) => (
                                st2,
                                Err(Failure::EvalPropValueFailed { source: Box::new(e), name: key }),
                            ),
                            Ok(v) => eval_object_spec(
                                b,
                                st2,
                                scopes,
                                props,
                                i + 1,
                                put(acc, key, v),
                                loc,
                            ),
                        }
                    },
                }
            },
            PropItem::Single { expr, is_spread, collect } => if collect {
                (st, Err(Failure::ObjectCollectOutsideDestructure.at(loc)))
            } else if is_spread {
                let (st1, r) = after(st, eval_expr_spec(b, st, scopes, expr));
                match r {
                    Err(e) => (st1, Err(e.within(Context::EvalExprFailed))),
                    Ok(v) => match v.v {
                        Val::Object(r) => eval_object_spec(
                            b,
                            st1,
                            scopes,
                            props,
                            i + 1,
                            put_all(acc, st1.objects[r as int], 0),
                            loc,
                        ),
                        other => (
                            st1,
                            Err(Failure::SpreadNonObjectInObject { value: other }.at(expr.1)),
                        ),
                    },
                }
            } else {
                match expr.0 {
                    RawExpr::Var { name } => match get_spec(st, scopes, name@) {
                        Some(v) => eval_object_spec(
                            b,
                            st,
                            scopes,
                            props,
                            i + 1,
                            put(acc, name@, v),
                            loc,
                        ),
                        None => (st, Err(Failure::Undefined { name: name@ }.at(expr.1))),
                    },
                    _ => (st, Err(Failure::ObjectPropShorthandNotVar.at(expr.1))),
                }
            },
        }
    }
}

/// The text of the string that `e` gives. `descr` says in errors what the
/// string is for.
#[verifier::opaque]
pub open spec fn eval_expr_to_str_spec(
    b: Builtins,
    st: St,
    scopes: Seq<ScopeRef>,
    descr: Seq<char>,
    e: Expr,
) -> Out<Seq<char>>
    decreases st.fuel, 1nat, 0nat,
{
    let (st1, r) = eval_expr_spec(b, st, scopes, e);
    match r {
        Err(e2) => (st1, Err(e2.within(Context::EvalExprFailed))),
        Ok(v) => match v.v {
            Val::Str(raw) => if valid_utf8(raw) {
                (st1, Ok(decode_utf8(raw)))
            } else {
                (
                    st1,
                    Err(
                        Failure::StringConstructionFailed {
                            reason: utf8_error_text(raw),
                            descr,
                        }.at(e.1),
                    ),
                )
            },
            other => (
                st1,
                Err(
                    Failure::IncorrectType { descr, exp_type: "string"@, value: other }.at(e.1),
                ),
            ),
        },
    }
}

/// The boolean that `e` gives.
#[verifier::opaque]
pub open spec fn eval_expr_to_bool_spec(
    b: Builtins,
    st: St,
    scopes: Seq<ScopeRef>,
    descr: Seq<char>,
    e: Expr,
) -> Out<bool>
    decreases st.fuel, 1nat, 0nat,
{
    let (st1, r) = eval_expr_spec(b, st, scopes, e);
    match r {
        Err(e2) => (st1, Err(e2.within(Context::EvalExprFailed))),
        Ok(v) => match v.v {
            Val::Bool(x) => (st1, Ok(x)),
            other => (
                st1,
                Err(Failure::IncorrectType { descr, exp_type: "bool"@, value: other }.at(e.1)),
            ),
        },
    }
}

/// The integer that `e` gives.
#[verifier::opaque]
pub open spec fn eval_expr_to_i64_spec(
    b: Builtins,
    st: St,
    scopes: Seq<ScopeRef>,
    descr: Seq<char>,
    e: Expr,
) -> Out<i64>
    decreases st.fuel, 1nat, 0nat,
{
    let (st1, r) = eval_expr_spec(b, st, scopes, e);
    match r {
        Err(e2) => (st1, Err(e2.within(Context::EvalExprFailed))),
        Ok(v) => match v.v {
            Val::Int(n) => (st1, Ok(n)),
            other => (
                st1,
                Err(Failure::IncorrectType { descr, exp_type: "int"@, value: other }.at(e.1)),
            ),
        },
    }
}

/// The index that `e` gives: an integer that is not negative.
#[verifier::opaque]
pub open spec fn eval_expr_to_index_spec(b: Builtins, st: St, scopes: Seq<ScopeRef>, e: Expr) -> Out<
    usize,
>
    decreases st.fuel, 2nat, 0nat,
{
    let (st1, r) = eval_expr_to_i64_spec(b, st, scopes, "index"@, e);
    match r {
        Err(e2) => (st1, Err(e2.within(Context::EvalIndexToI64Failed))),
        Ok(index) => if index < 0 {
            (st1, Err(Failure::NegativeIndex { index }.at(e.1)))
        } else if index > usize::MAX {
            (st1, Err(Failure::CastFailed.at(e.1).within(Context::ConvertIndexToUsizeFailed)))
        } else {
            (st1, Ok(index as usize))
        },
    }
}

/// The index that `e` gives, if there is an `e`.
#[verifier::opaque]
pub open spec fn eval_bound_spec(
    b: Builtins,
    st: St,
    scopes: Seq<ScopeRef>,
    e: Option<Box<Expr>>,
    context: Context,
) -> Out<Option<usize>>
    decreases st.fuel, 3nat, 0nat,
{
    match e {
        None => (st, Ok(None)),
        Some(e) => {
            let (st1, r) = eval_expr_to_index_spec(b, st, scopes, *e);
            match r {
                Err(e2) => (st1, Err(e2.within(context))),
                Ok(n) => (st1, Ok(Some(n))),
            }
        },
    }
}

/// The index at which a string or a list is read, where `e` gives it: an
/// integer that is not negative. A value of another type cannot index, which
/// is an error at `loc`, the place of the indexing.
#[verifier::opaque]
pub open spec fn eval_read_index_spec(
    b: Builtins,
    st: St,
    scopes: Seq<ScopeRef>,
    e: Expr,
    loc: Location,
) -> Out<usize>
    decreases st.fuel, 2nat, 0nat,
{
    let (st1, r) = eval_expr_spec(b, st, scopes, e);
    match r {
        Err(e2) => (st1, Err(e2.within(Context::EvalExprFailed))),
        Ok(v) => match v.v {
            Val::Int(index) => if index < 0 {
                (st1, Err(Failure::NegativeIndex { index }.at(e.1)))
            } else if index > usize::MAX {
                (
                    st1,
                    Err(Failure::CastFailed.at(e.1).within(Context::ConvertIndexToUsizeFailed)),
                )
            } else {
                (st1, Ok(index as usize))
            },
            _ => (st1, Err(Failure::ValueNotIndexable.at(loc))),
        },
    }
}

/// The key under which an object is read, where `e` gives it: the text of
/// a string. A value of another type cannot index, which is an error at
/// `loc`, the place of the indexing.
#[verifier::opaque]
pub open spec fn eval_read_key_spec(
    b: Builtins,
    st: St,
    scopes: Seq<ScopeRef>,
    e: Expr,
    loc: Location,
) -> Out<Seq<char>>
    decreases st.fuel, 2nat, 0nat,
{
    let (st1, r) = eval_expr_spec(b, st, scopes, e);
    match r {
        Err(e2) => (st1, Err(e2.within(Context::EvalExprFailed))),
        Ok(v) => match v.v {
            Val::Str(raw) => if valid_utf8(raw) {
                (st1, Ok(decode_utf8(raw)))
            } else {
                (
                    st1,
                    Err(
                        Failure::StringConstructionFailed {
                            reason: utf8_error_text(raw),
                            descr: "property"@,
                        }.at(e.1),
                    ),
                )
            },
            _ => (st1, Err(Failure::ValueNotIndexable.at(loc))),
        },
    }
}

/// The value of `expr[location]`: the byte of a string at that index, as a
/// string; the item of a list at that index; or what an object holds under
/// that key, with the object as its source and no other. Only a string, a
/// list and an object can be indexed, the first two by an integer and the
/// last by a string.
#[verifier::opaque]
pub open spec fn eval_index_spec(
    b: Builtins,
    st: St,
    scopes: Seq<ScopeRef>,
    expr: Expr,
    location: Expr,
    loc: Location,
) -> Out<SVal>
    decreases st.fuel, 20nat, 0nat,
{
    let (st1, r) = after(st, eval_expr_spec(b, st, scopes, expr));
    match r {
        Err(e) => (st1, Err(e.within(Context::EvalSourceExprFailed))),
        Ok(source_val) => match source_val.v {
            Val::Str(s) => {
                let (st2, ri) = eval_read_index_spec(b, st1, scopes, location, loc);
                match ri {
                    Err(e) => (st2, Err(e.within(Context::EvalStringIndexFailed))),
                    Ok(index) => if index < s.len() {
                        (st2, Ok(unsourced(Val::Str(seq![s[index as int]]))))
                    } else {
                        (st2, Err(Failure::OutOfStringBounds { index }.at(loc)))
                    },
                }
            },
            Val::List(list) => {
                let (st2, ri) = eval_read_index_spec(b, st1, scopes, location, loc);
                match ri {
                    Err(e) => (st2, Err(e.within(Context::EvalListIndexFailed))),
                    Ok(index) => if index < st2.lists[list as int].len() {
                        (st2, Ok(unsourced(st2.lists[list as int][index as int].v)))
                    } else {
                        (st2, Err(Failure::OutOfListBounds { index }.at(loc)))
                    },
                }
            },
            Val::Object(props) => {
                let (st2, rn) = eval_read_key_spec(b, st1, scopes, location, loc);
                match rn {
                    Err(e) => (st2, Err(e.within(Context::EvalObjectIndexFailed))),
                    Ok(name) => match lookup(st2.objects[props as int], name) {
                        Some(value) => (
                            st2,
                            Ok(SVal { v: value.v, source: Some(source_val.v) }),
                        ),
                        None => (st2, Err(Failure::PropNotFound { name }.at(loc))),
                    },
                }
            },
            _ => (st1, Err(Failure::ValueNotIndexable.at(loc))),
        },
    }
}

/// The value of `expr[start:end]`: `expr` is evaluated first, then the
/// bounds, from left to right. `expr` must have given a string or a list;
/// the result is a new string or list of the part between the bounds, read
/// from the list as it is once the bounds are known.
#[verifier::opaque]
pub open spec fn eval_range_index_spec(
    b: Builtins,
    st: St,
    scopes: Seq<ScopeRef>,
    expr: Expr,
    start: Option<Box<Expr>>,
    end: Option<Box<Expr>>,
    loc: Location,
) -> Out<SVal>
    decreases st.fuel, 20nat, 0nat,
{
    let (st1, r) = after(st, eval_expr_spec(b, st, scopes, expr));
    match r {
        Err(e) => (st1, Err(e.within(Context::EvalExprFailed))),
        Ok(v) => {
            let (st2, rs) = after(
                st1,
                eval_bound_spec(b, st1, scopes, start, Context::EvalStartIndexFailed),
            );
            match rs {
                Err(e) => (st2, Err(e)),
                Ok(start_val) => {
                    let (st3, re) = after(
                        st2,
                        eval_bound_spec(b, st2, scopes, end, Context::EvalEndIndexFailed),
                    );
                    match re {
                        Err(e) => (st3, Err(e)),
                        Ok(end_val) => match v.v {
                            Val::Str(s) => match get_str_range_index_spec(s, start_val, end_val) {
                                Ok(v) => (st3, Ok(v)),
                                Err(e) => (
                                    st3,
                                    Err(e.within(Context::EvalStringRangeIndexFailed).at(loc)),
                                ),
                            },
                            Val::List(items) => {
                                let (st4, r4) = get_list_range_index_spec(
                                    st3,
                                    items,
                                    start_val,
                                    end_val,
                                );
                                match r4 {
                                    Ok(v) => (st4, Ok(v)),
                                    Err(e) => (
                                        st4,
                                        Err(e.within(Context::EvalListRangeIndexFailed).at(loc)),
                                    ),
                                }
                            },
                            _ => (st3, Err(Failure::ValueNotRangeIndexable.at(loc))),
                        },
                    }
                },
            }
        },
    }
}

/// The integers from `start` up to `end`, `end` left out.
pub open spec fn int_range(start: i64, end: i64) -> Seq<SVal> {
    Seq::new(
        if end > start {
            (end - start) as nat
        } else {
            0
        },
        |i: int| unsourced(Val::Int((start + i) as i64)),
    )
}

/// The value of `start..end`: a new list of the integers between them.
#[verifier::opaque]
pub open spec fn eval_range_spec(b: Builtins, st: St, scopes: Seq<ScopeRef>, start: Expr, end: Expr) -> Out<
    SVal,
>
    decreases st.fuel, 20nat, 0nat,
{
    let (st1, rs) = after(st, eval_expr_to_i64_spec(b, st, scopes, "range start"@, start));
    match rs {
        Err(e) => (st1, Err(e.within(Context::EvalRangeStartFailed))),
        Ok(from) => {
            let (st2, re) = eval_expr_to_i64_spec(b, st1, scopes, "range end"@, end);
            match re {
                Err(e) => (st2, Err(e.within(Context::EvalRangeEndFailed))),
                Ok(to) => (
                    st2.with_list(int_range(from, to)),
                    Ok(unsourced(Val::List(st2.lists.len() as usize))),
                ),
            }
        },
    }
}

/// The object in which a property of `source` is looked up: for a type
/// property the object of the functions of its type, which `null` has
/// not; otherwise `source` itself, which must be an object.
pub open spec fn namespace_spec(b: Builtins, source: Val, type_prop: bool, loc: Location) -> Result<
    ObjectRef,
    Failure,
> {
    if type_prop {
        match source {
            Val::Bool(_) => Ok(b.type_functions.bools),
            Val::Int(_) => Ok(b.type_functions.ints),
            Val::Str(_) => Ok(b.type_functions.strs),
            Val::List(_) => Ok(b.type_functions.lists),
            Val::Object(_) => Ok(b.type_functions.objects),
            Val::BuiltinFunc { .. } => Ok(b.type_functions.funcs),
            Val::Func(_) => Ok(b.type_functions.funcs),
            Val::Null => Err(Failure::TypeFunctionOnNull.at(loc)),
        }
    } else {
        match source {
            Val::Object(props) => Ok(props),
            other => Err(Failure::PropAccessOnNonObject { value: other }.at(loc)),
        }
    }
}

/// The value of `expr.name`, or of the type property `name` of `expr`:
/// what the namespace holds under `name`, with the value of `expr` as its
/// source.
#[verifier::opaque]
pub open spec fn eval_prop_spec(
    b: Builtins,
    st: St,
    scopes: Seq<ScopeRef>,
    expr: Expr,
    name: Seq<char>,
    type_prop: bool,
    loc: Location,
) -> Out<SVal>
    decreases st.fuel, 20nat, 0nat,
{
    let (st1, r) = eval_expr_spec(b, st, scopes, expr);
    match r {
        Err(e) => (st1, Err(e.within(Context::EvalPropFailed))),
        Ok(source) => match namespace_spec(b, source.v, type_prop, loc) {
            Err(e) => (st1, Err(e)),
            Ok(namespace) => match lookup(st1.objects[namespace as int], name) {
                Some(value) => (st1, Ok(SVal { v: value.v, source: Some(source.v) })),
                None => if type_prop {
                    (st1, Err(Failure::TypeFunctionNotFound { value: source.v, name }.at(loc)))
                } else {
                    (st1, Err(Failure::PropNotFound { name }.at(loc)))
                },
            },
        },
    }
}

/// The least number of arguments that a function takes.
pub open spec fn min_args(f: FuncView) -> usize {
    if f.collect_args && f.args.len() > 0 {
        (f.args.len() - 1) as usize
    } else if f.collect_args {
        0
    } else {
        f.args.len() as usize
    }
}

/// What the parameters of `f` are bound to in a call with the arguments
/// `args`: each parameter to the argument at its place, the last one to a
/// list of all the arguments from its place on if the function collects,
/// and `this` to the receiver, if there is one. `rest` is the handle of
/// that list.
pub open spec fn call_bindings_spec(f: FuncView, args: Seq<SVal>, rest: ListRef, this: Option<Val>) -> Seq<
    (TargetView, SVal),
> {
    Seq::new(
        f.args.len(),
        |i: int|
            (
                TargetView::Pattern(f.args[i].0, f.args[i].1),
                if f.collect_args && i == f.args.len() - 1 {
                    unsourced(Val::List(rest))
                } else {
                    args[i]
                },
            ),
    ) + (match this {
        Some(t) => seq![(TargetView::Name("this"@, (0, 0)), unsourced(t))],
        None => seq![],
    })
}

/// The value of the call `func(args)`: the arguments are evaluated first,
/// then `func`, which must give a function. The function is handed the
/// source of `func` as its receiver.
#[verifier::opaque]
pub open spec fn eval_call_spec(
    b: Builtins,
    st: St,
    scopes: Seq<ScopeRef>,
    func: Expr,
    args: Seq<ListItem>,
    loc: Location,
) -> Out<SVal>
    decreases st.fuel, 20nat, 0nat,
{
    let (st1, ra) = after(st, eval_list_items_spec(b, st, scopes, args, 0, seq![]));
    match ra {
        Err(e) => (st1, Err(e.within(Context::EvalCallArgsFailed))),
        Ok(arg_vals) => {
            let (st2, rf) = after(st1, eval_expr_spec(b, st1, scopes, func));
            match rf {
                Err(e) => (st2, Err(e.within(Context::EvalCallFuncFailed))),
                Ok(func_val) => match func_val.v {
                    Val::BuiltinFunc { name, f } => {
                        let this = match func_val.source {
                            Some(s) => Some(unsourced(s)),
                            None => None,
                        };
                        let (st3, r) = call_builtin_spec(st2, f, this, arg_vals);
                        match r {
                            Ok(v) => (st3, Ok(unsourced(v.v))),
                            Err(e) => (
                                st3,
                                Err(
                                    Failure::EvalBuiltinFuncCallFailed {
                                        source: Box::new(e),
                                        func_name: Some(name),
                                        call_loc: loc,
                                    },
                                ),
                            ),
                        }
                    },
                    Val::Func(fr) => call_func_spec(
                        b,
                        st2,
                        fr,
                        arg_vals,
                        func_val.source,
                        loc,
                    ),
                    other => (st2, Err(Failure::CannotCallNonFunc { v: other }.at(loc))),
                },
            }
        },
    }
}

/// What calling the user function `fr` with the arguments `args` and the
/// receiver `this` does: the number of arguments must fit the parameters;
/// the body runs in a new scope within the scopes the function was made
/// in, with the parameters bound there; the call gives what the body
/// returns, or `null` if it returns nothing. A `break` or `continue` that
/// leaves the body is an error.
#[verifier::opaque]
pub open spec fn call_func_spec(
    b: Builtins,
    st: St,
    fr: FuncRef,
    args: Seq<SVal>,
    this: Option<Val>,
    loc: Location,
) -> Out<SVal>
    decreases st.fuel, 19nat, 0nat,
{
    let f = st.funcs[fr as int];
    let got = args.len() as usize;
    if f.collect_args && min_args(f) > got {
        (st, Err(Failure::TooFewArgs { minimum: min_args(f), got }.at(loc)))
    } else if !f.collect_args && f.args.len() != got {
        (st, Err(Failure::ArgNumMismatch { need: f.args.len() as usize, got }.at(loc)))
    } else {
        let st1 = if f.collect_args && f.args.len() > 0 {
            st.with_list(args.subrange(min_args(f) as int, got as int))
        } else {
            st
        };
        let bindings = call_bindings_spec(f, args, st.lists.len() as usize, this);
        let (st2, r) = eval_stmts_spec(b, st1, f.closure, bindings, f.stmts);
        match r {
            Err(e) => (
                st2,
                Err(
                    Failure::EvalFuncCallFailed {
                        source: Box::new(e),
                        func_name: f.name,
                        call_loc: loc,
                    },
                ),
            ),
            Ok(EscapeView::Nothing) => (st2, Ok(unsourced(Val::Null))),
            Ok(EscapeView::Break { loc: at }) => (st2, Err(Failure::BreakOutsideLoop.at(at))),
            Ok(EscapeView::Continue { loc: at }) => (
                st2,
                Err(Failure::ContinueOutsideLoop.at(at)),
            ),
            Ok(EscapeView::Return { value, .. }) => (st2, Ok(unsourced(value.v))),
        }
    }
}

/// The bytes of an interpolated string: `acc`, then for each slot of
/// `slots` from `i` on the bytes of `s` between the slot before it and the
/// slot, and the string that the slot's expression gives, and at last the
/// bytes of `s` after the last slot. `last_end` is where the slot before
/// `i` ended. An error in a slot is raised at the line of the literal, four
/// columns after the column of the slot.
#[verifier::opaque]
pub open spec fn interpolate_string_spec(
    b: Builtins,
    st: St,
    scopes: Seq<ScopeRef>,
    s: Seq<u8>,
    slots: Seq<ParsedSlot>,
    i: int,
    last_end: int,
    acc: Seq<u8>,
    loc: Location,
) -> Out<Seq<u8>>
    decreases st.fuel, 3nat, slots.len() - i,
{
    if i < 0 || i >= slots.len() {
        if 0 <= last_end <= s.len() {
            (st, Ok(acc + s.subrange(last_end, s.len() as int)))
        } else {
            (st, Err(Failure::Dev { msg: "interpolation slot is out of place"@ }.at(loc)))
        }
    } else {
        let slot = slots[i];
        let at = (loc.0, column_add(column_add(loc.1, slot.start as int), 4));
        if !(0 <= last_end <= slot.start && slot_text_span(
            slot.start as int,
            slot.end as int,
            s.len() as int,
        ) is Some) {
            (st, Err(Failure::Dev { msg: "interpolation slot is out of place"@ }.at(loc)))
        } else {
            match slot.expr {
                Err(msg) => (
                    st,
                    Err(Failure::InterpolateStringParseFailed { source_str: msg@ }.at(at)),
                ),
                Ok(e) => {
                    let (st1, r) = after(st, eval_expr_spec(b, st, scopes, *e));
                    match r {
                        Err(e2) => (
                            st1,
                            Err(e2.within(Context::InterpolateStringEvalExprFailed).at(at)),
                        ),
                        Ok(v) => match v.v {
                            Val::Str(raw) => if valid_utf8(raw) {
                                interpolate_string_spec(
                                    b,
                                    st1,
                                    scopes,
                                    s,
                                    slots,
                                    i + 1,
                                    slot.end as int,
                                    acc + s.subrange(last_end, slot.start as int) + raw,
                                    loc,
                                )
                            } else {
                                (
                                    st1,
                                    Err(
                                        Failure::StringConstructionFailed {
                                            reason: utf8_error_text(raw),
                                            descr: "interpolated slot"@,
                                        }.at(at),
                                    ),
                                )
                            },
                            other => (
                                st1,
                                Err(Failure::InterpolatedValueNotString { value: other }.at(at)),
                            ),
                        },
                    }
                },
            }
        }
    }
}

/// What running `stmts` in a new scope within `scopes` does, with
/// `bindings` declared in that scope first. When the statements are over,
/// however they ended, the new scope and the scopes made while they ran
/// are given back to the machine, unless a function was made meanwhile,
/// which may have captured them.
#[verifier::opaque]
pub open spec fn eval_stmts_spec(
    b: Builtins,
    st: St,
    scopes: Seq<ScopeRef>,
    bindings: Seq<(TargetView, SVal)>,
    stmts: Seq<Stmt>,
) -> Out<EscapeView>
    decreases st.fuel, 6nat, 0nat,
{
    let (st1, new_scopes) = push_spec(st, scopes, seq![]);
    let (st2, r) = after(st1, bind_all_spec(b, st1, new_scopes, bindings, 0));
    match r {
        Err(e) => (st2.released(st.scopes.len(), st.funcs.len()), Err(e)),
        Ok(_) => {
            let (st3, r3) = eval_stmts_with_scope_stack_spec(b, st2, new_scopes, stmts, 0);
            (
                st3.released(st.scopes.len(), st.funcs.len()),
                ctx(r3, Context::EvalStmtsWithScopeStackFailed),
            )
        },
    }
}

/// Declares the bindings of `bindings` from `i` on in the innermost scope
/// of `scopes`, one after the other.
#[verifier::opaque]
pub open spec fn bind_all_spec(
    b: Builtins,
    st: St,
    scopes: Seq<ScopeRef>,
    bindings: Seq<(TargetView, SVal)>,
    i: int,
) -> Out<()>
    decreases st.fuel, 5nat, bindings.len() - i,
{
    if i < 0 || i >= bindings.len() {
        (st, Ok(()))
    } else {
        let (st1, r) = after(
            st,
            match bindings[i].0 {
                TargetView::Pattern(raw, loc) => bind_spec(
                    b,
                    st,
                    scopes,
                    raw,
                    loc,
                    bindings[i].1,
                    BindType::Declaration,
                ),
                TargetView::Name(name, loc) => bind_name_spec(
                    st,
                    scopes,
                    name,
                    loc,
                    bindings[i].1,
                    BindType::Declaration,
                ),
            },
        );
        match r {
            Err(e) => (st1, Err(e.within(Context::BindFailed))),
            Ok(_) => bind_all_spec(b, st1, scopes, bindings, i + 1),
        }
    }
}

/// What running the statements of `stmts` from `i` on does, in the scopes
/// of `scopes`: each runs in its turn, until one escapes.
#[verifier::opaque]
pub open spec fn eval_stmts_with_scope_stack_spec(
    b: Builtins,
    st: St,
    scopes: Seq<ScopeRef>,
    stmts: Seq<Stmt>,
    i: int,
) -> Out<EscapeView>
    decreases st.fuel, 5nat, stmts.len() - i,
{
    if i < 0 || i >= stmts.len() {
        (st, Ok(EscapeView::Nothing))
    } else {
        let (st1, r) = after(st, eval_stmt_spec(b, st, scopes, stmts[i]));
        match r {
            Err(e) => (st1, Err(e.within(Context::EvalStmtFailed))),
            Ok(EscapeView::Nothing) => eval_stmts_with_scope_stack_spec(b, st1, scopes, stmts, i + 1),
            Ok(escape) => (st1, Ok(escape)),
        }
    }
}

/// What running `stmts` in a new scope within `scopes` does.
#[verifier::opaque]
pub open spec fn eval_stmts_in_new_scope_spec(
    b: Builtins,
    st: St,
    scopes: Seq<ScopeRef>,
    stmts: Seq<Stmt>,
) -> Out<EscapeView>
    decreases st.fuel, 7nat, 0nat,
{
    eval_stmts_spec(b, st, scopes, seq![], stmts)
}

/// `r` as the outcome of a statement that does not escape.
pub open spec fn done<T>(r: Result<T, Failure>, context: Context) -> Result<EscapeView, Failure> {
    match r {
        Ok(_) => Ok(EscapeView::Nothing),
        Err(e) => Err(e.within(context)),
    }
}

/// What running the statement `stmt` does. A block and an `if` end as the
/// statements in them end, so that an escape passes through them to the
/// loop or the function around them.
///
/// A statement takes one step. With no step left it fails at its place,
/// the first place written in it (see [`stmt_place`]). A statement in which
/// no place is written is made of empty blocks alone: it does nothing, and
/// is done though no step is left.
#[verifier::opaque]
pub open spec fn eval_stmt_spec(b: Builtins, st: St, scopes: Seq<ScopeRef>, stmt: Stmt) -> Out<
    EscapeView,
>
    decreases st.fuel, 0nat, 0nat,
{
    if st.fuel == 0 {
        match stmt_place(stmt) {
            Some(loc) => (st, Err(Failure::StepLimitReached.at(loc))),
            None => (st, Ok(EscapeView::Nothing)),
        }
    } else {
        let st = st.tick();
        match stmt {
            Stmt::Block { block } => {
                let (st1, r) = eval_stmts_in_new_scope_spec(b, st, scopes, block@);
                (st1, ctx(r, Context::EvalBlockFailed))
            },
            Stmt::Expr { expr } => {
                let (st1, r) = eval_expr_spec(b, st, scopes, expr);
                (st1, done(r, Context::EvalExprFailed))
            },
            Stmt::Declare { lhs, rhs } => {
                let (st1, r) = after(st, eval_expr_spec(b, st, scopes, rhs));
                match r {
                    Err(e) => (st1, Err(e.within(Context::EvalDeclarationRhsFailed))),
                    Ok(v) => {
                        let (st2, r2) = bind_spec(
                            b,
                            st1,
                            scopes,
                            lhs.0,
                            lhs.1,
                            v,
                            BindType::Declaration,
                        );
                        (st2, done(r2, Context::DeclarationBindFailed))
                    },
                }
            },
            Stmt::Assign { lhs, rhs } => {
                let (st1, r) = after(st, eval_expr_spec(b, st, scopes, rhs));
                match r {
                    Err(e) => (st1, Err(e.within(Context::EvalAssignmentRhsFailed))),
                    Ok(v) => {
                        let (st2, r2) = bind_spec(
                            b,
                            st1,
                            scopes,
                            lhs.0,
                            lhs.1,
                            v,
                            BindType::Assignment,
                        );
                        (st2, done(r2, Context::AssignmentBindFailed))
                    },
                }
            },
            Stmt::OpAssign { lhs, op, op_loc, rhs } => {
                let (st1, r) = after(st, eval_expr_spec(b, st, scopes, rhs));
                match r {
                    Err(e) => (st1, Err(e.within(Context::EvalBinOpRhsFailed))),
                    Ok(v) => {
                        let (st2, r2) = bind_next_spec(
                            b,
                            st1,
                            scopes,
                            seq![],
                            lhs.0,
                            lhs.1,
                            v,
                            Some((op, op_loc)),
                            BindType::Assignment,
                        );
                        (st2, done(r2, Context::OpAssignmentBindFailed))
                    },
                }
            },
            Stmt::If { branches, else_stmts } => eval_if_spec(
                b,
                st,
                scopes,
                branches@,
                0,
                else_stmts,
            ),
            Stmt::While { cond, stmts } => eval_while_spec(b, st, scopes, cond, stmts@),
            Stmt::For { lhs, iter, stmts } => {
                let (st1, r) = after(st, eval_expr_spec(b, st, scopes, iter));
                match r {
                    Err(e) => (st1, Err(e.within(Context::EvalForIterFailed))),
                    Ok(iter_val) => match value_to_pairs_spec(st1, iter_val.v) {
                        Err(e) => (
                            st1,
                            Err(e.at(iter.1).within(Context::ConvertForIterToPairsFailed)),
                        ),
                        Ok(pairs) => eval_for_spec(b, st1, scopes, lhs, pairs, 0, stmts@),
                    },
                }
            },
            Stmt::Break { loc } => (st, Ok(EscapeView::Break { loc })),
            Stmt::Continue { loc } => (st, Ok(EscapeView::Continue { loc })),
            Stmt::Func { name, args, collect_args, stmts } => {
                let st1 = st.with_func(
                    FuncView {
                        name: Some(name.0@),
                        args: args@,
                        collect_args,
                        stmts: stmts@,
                        closure: scopes,
                    },
                );
                let func = unsourced(Val::Func(st.funcs.len() as usize));
                let (st2, r) = bind_name_spec(
                    st1,
                    scopes,
                    name.0@,
                    name.1,
                    func,
                    BindType::Declaration,
                );
                (st2, done(r, Context::DeclareFunctionFailed))
            },
            Stmt::Return { loc, expr } => {
                let (st1, r) = eval_expr_spec(b, st, scopes, expr);
                match r {
                    Err(e) => (st1, Err(e.within(Context::EvalReturnExprFailed))),
                    Ok(value) => (st1, Ok(EscapeView::Return { value, loc })),
                }
            },
        }
    }
}

/// What an `if` does from its branch `i` on: the conditions are evaluated
/// in turn, and the body of the first that holds runs in a new scope; if
/// none holds the `else` body runs, if there is one.
#[verifier::opaque]
pub open spec fn eval_if_spec(
    b: Builtins,
    st: St,
    scopes: Seq<ScopeRef>,
    branches: Seq<Branch>,
    i: int,
    else_stmts: Option<Block>,
) -> Out<EscapeView>
    decreases st.fuel, 8nat, branches.len() - i,
{
    if i < 0 || i >= branches.len() {
        match else_stmts {
            Some(stmts) => {
                let (st1, r) = eval_stmts_in_new_scope_spec(b, st, scopes, stmts@);
                (st1, ctx(r, Context::EvalElseStatementsFailed))
            },
            None => (st, Ok(EscapeView::Nothing)),
        }
    } else {
        let (st1, rb) = after(
            st,
            eval_expr_to_bool_spec(b, st, scopes, "condition"@, branches[i].cond),
        );
        match rb {
            Err(e) => (st1, Err(e.within(Context::EvalIfConditionFailed))),
            Ok(true) => {
                let (st2, r) = eval_stmts_in_new_scope_spec(b, st1, scopes, branches[i].stmts@);
                (st2, ctx(r, Context::EvalIfStatementsFailed))
            },
            Ok(false) => eval_if_spec(b, st1, scopes, branches, i + 1, else_stmts),
        }
    }
}

/// What a `while` does: as long as the condition holds the body runs in a
/// new scope; `break` ends the loop, `continue` ends the turn, and `return`
/// leaves the loop with its value. Every turn takes a step, so that the
/// loop ends when the steps run out if it does not end before.
#[verifier::opaque]
pub open spec fn eval_while_spec(
    b: Builtins,
    st: St,
    scopes: Seq<ScopeRef>,
    cond: Expr,
    stmts: Seq<Stmt>,
) -> Out<EscapeView>
    decreases st.fuel, 8nat, 0nat,
{
    let (st1, rb) = after(st, eval_expr_to_bool_spec(b, st, scopes, "condition"@, cond));
    match rb {
        Err(e) => (st1, Err(e.within(Context::EvalWhileConditionFailed))),
        Ok(false) => (st1, Ok(EscapeView::Nothing)),
        Ok(true) => {
            let (st2, r) = after(st1, eval_stmts_in_new_scope_spec(b, st1, scopes, stmts));
            match r {
                Err(e) => (st2, Err(e.within(Context::EvalWhileStatementsFailed))),
                Ok(EscapeView::Break { .. }) => (st2, Ok(EscapeView::Nothing)),
                Ok(EscapeView::Return { value, loc }) => (
                    st2,
                    Ok(EscapeView::Return { value, loc }),
                ),
                Ok(_) => if st2.fuel < st.fuel {
                    eval_while_spec(b, st2, scopes, cond, stmts)
                } else {
                    (st2, Err(Failure::StepLimitReached.at(cond.1)))
                },
            }
        },
    }
}

/// What a `for` does from the pair `i` of `pairs` on: for each pair the body
/// runs in a new scope in which `lhs` is bound to a new list of the two;
/// `break`, `continue` and `return` are as in `while`.
#[verifier::opaque]
pub open spec fn eval_for_spec(
    b: Builtins,
    st: St,
    scopes: Seq<ScopeRef>,
    lhs: Expr,
    pairs: Seq<(SVal, SVal)>,
    i: int,
    stmts: Seq<Stmt>,
) -> Out<EscapeView>
    decreases st.fuel, 8nat, pairs.len() - i,
{
    if i < 0 || i >= pairs.len() {
        (st, Ok(EscapeView::Nothing))
    } else {
        let st1 = st.with_list(seq![pairs[i].0, pairs[i].1]);
        let pair = unsourced(Val::List(st.lists.len() as usize));
        let (st2, r) = after(
            st1,
            eval_stmts_spec(b, st1, scopes, seq![(TargetView::Pattern(lhs.0, lhs.1), pair)], stmts),
        );
        match r {
            Err(e) => (st2, Err(e.within(Context::EvalForStatementsFailed))),
            Ok(EscapeView::Break { .. }) => (st2, Ok(EscapeView::Nothing)),
            Ok(EscapeView::Return { value, loc }) => (st2, Ok(EscapeView::Return { value, loc })),
            Ok(_) => eval_for_spec(b, st2, scopes, lhs, pairs, i + 1, stmts),
        }
    }
}

/// The global bindings as the first bindings of the program's scope.
pub open spec fn global_targets(global_bindings: Seq<(RawExpr, SVal)>) -> Seq<(TargetView, SVal)> {
    Seq::new(
        global_bindings.len(),
        |i: int| (TargetView::Pattern(global_bindings[i].0, (0, 0)), global_bindings[i].1),
    )
}

/// What running the program does: its statements run in a new scope in
/// which the global bindings are declared. An escape that reaches the end
/// of the program is an error at the place of the statement it came from.
#[verifier::opaque]
pub open spec fn eval_prog_spec(
    b: Builtins,
    st: St,
    scopes: Seq<ScopeRef>,
    global_bindings: Seq<(RawExpr, SVal)>,
    prog: Prog,
) -> Out<()>
    decreases st.fuel, 10nat, 0nat,
{
    match prog {
        Prog::Body { stmts } => {
            let (st1, r) = eval_stmts_spec(b, st, scopes, global_targets(global_bindings), stmts@);
            match r {
                Err(e) => (st1, Err(e.within(Context::EvalStmtsFailed))),
                Ok(EscapeView::Nothing) => (st1, Ok(())),
                Ok(EscapeView::Break { loc }) => (st1, Err(Failure::BreakOutsideLoop.at(loc))),
                Ok(EscapeView::Continue { loc }) => (
                    st1,
                    Err(Failure::ContinueOutsideLoop.at(loc)),
                ),
                Ok(EscapeView::Return { loc, .. }) => (
                    st1,
                    Err(Failure::ReturnOutsideFunction.at(loc)),
                ),
            }
        },
    }
}

/// `name` bound to `rhs` by a binding that has bound `names` so far: `_`
/// binds nothing; a name may be bound once in a binding; a declaration
/// declares it in the innermost scope, an assignment stores into the
/// innermost scope that declares it.
pub open spec fn bind_next_name_spec(
    st: St,
    scopes: Seq<ScopeRef>,
    names: Names,
    name: Seq<char>,
    loc: Location,
    rhs: SVal,
    bind_type: BindType,
) -> Out<Names> {
    if name == "_"@ {
        (st, Ok(names))
    } else if names.contains(name) {
        (st, Err(Failure::AlreadyInBinding { name }.at(loc)))
    } else {
        match bind_type {
            BindType::Declaration => {
                let (st1, r) = declare_spec(st, scopes, name, loc, rhs);
                match r {
                    Err(prev) => (
                        st1,
                        Err(
                            Failure::AlreadyInScope {
                                name,
                                prev_line: prev.0,
                                prev_col: prev.1,
                            }.at(loc),
                        ),
                    ),
                    Ok(_) => (st1, Ok(names.push(name))),
                }
            },
            BindType::Assignment => {
                let (st1, found) = assign_spec(st, scopes, name, rhs);
                if found {
                    (st1, Ok(names.push(name)))
                } else {
                    (st1, Err(Failure::Undefined { name }.at(loc)))
                }
            },
        }
    }
}

/// An outcome without the names.
pub open spec fn forget(out: Out<Names>) -> Out<()> {
    (
        out.0,
        match out.1 {
            Ok(_) => Ok(()),
            Err(e) => Err(e),
        },
    )
}

/// `name` bound to `rhs`, in a binding of its own.
pub open spec fn bind_name_spec(
    st: St,
    scopes: Seq<ScopeRef>,
    name: Seq<char>,
    loc: Location,
    rhs: SVal,
    bind_type: BindType,
) -> Out<()> {
    forget(bind_next_name_spec(st, scopes, seq![], name, loc, rhs, bind_type))
}

/// The pattern `raw` bound to `rhs`, in a binding of its own.
#[verifier::opaque]
pub open spec fn bind_spec(
    b: Builtins,
    st: St,
    scopes: Seq<ScopeRef>,
    raw: RawExpr,
    loc: Location,
    rhs: SVal,
    bind_type: BindType,
) -> Out<()>
    decreases st.fuel, 4nat, 0nat,
{
    forget(bind_next_spec(b, st, scopes, seq![], raw, loc, rhs, None, bind_type))
}

/// What a pattern that cannot be bound to is called in the error.
pub open spec fn invalid_target(descr: Seq<char>, loc: Location) -> Failure {
    Failure::InvalidBindTarget { descr }.at(loc)
}

/// The pattern `raw` bound to `rhs` by a binding that has bound `names` so
/// far. With an operator, what is stored is what the operator gives on the
/// value that was there and `rhs`; only a name, an index and a property can
/// be bound so.
#[verifier::opaque]
pub open spec fn bind_next_spec(
    b: Builtins,
    st: St,
    scopes: Seq<ScopeRef>,
    names: Names,
    raw: RawExpr,
    loc: Location,
    rhs: SVal,
    op: Option<(BinaryOp, Location)>,
    bind_type: BindType,
) -> Out<Names>
    decreases st.fuel, 0nat, 0nat,
{
    if st.fuel == 0 {
        (st, Err(Failure::StepLimitReached.at(loc)))
    } else {
        let st = st.tick();
        match raw {
            RawExpr::Var { name } => match op {
                None => bind_next_name_spec(st, scopes, names, name@, loc, rhs, bind_type),
                Some(o) => if name@ == "_"@ {
                    (st, Ok(names))
                } else {
                    match get_spec(st, scopes, name@) {
                        None => (st, Err(Failure::Undefined { name: name@ }.at(loc))),
                        Some(cur) => {
                            let (st1, r) = apply_binary_operation_spec(st, o.0, o.1, cur.v, rhs.v);
                            match r {
                                Err(e) => (st1, Err(e.within(Context::ApplyBinOpFailed))),
                                Ok(v) => bind_next_name_spec(
                                    st1,
                                    scopes,
                                    names,
                                    name@,
                                    loc,
                                    unsourced(v),
                                    bind_type,
                                ),
                            }
                        },
                    }
                },
            },
            RawExpr::Index { expr, location } => bind_index_spec(
                b,
                st,
                scopes,
                names,
                *expr,
                *location,
                loc,
                rhs,
                op,
            ),
            RawExpr::RangeIndex { expr, start, end } => if op is Some {
                (st, Err(Failure::OpOnRangeIndex.at(loc)))
            } else {
                let (st1, r) = bind_range_spec(b, st, scopes, *expr, start, end, loc, rhs);
                match r {
                    Ok(_) => (st1, Ok(names)),
                    Err(e) => (st1, Err(e)),
                }
            },
            RawExpr::Prop { expr, name, type_prop } => bind_prop_spec(
                b,
                st,
                scopes,
                names,
                *expr,
                name@,
                type_prop,
                loc,
                rhs,
                op,
            ),
            RawExpr::Object { props } => if op is Some {
                (st, Err(Failure::OpOnObjectDestructure.at(loc)))
            } else {
                match rhs.v {
                    Val::Object(r) => bind_object_spec(
                        b,
                        st,
                        scopes,
                        names,
                        props@,
                        r,
                        keys_of(st.objects[r as int]),
                        seq![],
                        0,
                        bind_type,
                    ),
                    other => (
                        st,
                        Err(Failure::ObjectDestructureOnNonObject { value: other }.at(loc)),
                    ),
                }
            },
            RawExpr::List { items, collect } => if op is Some {
                (st, Err(Failure::OpOnListDestructure.at(loc)))
            } else {
                match rhs.v {
                    Val::List(r) => bind_list_spec(
                        b,
                        st,
                        scopes,
                        names,
                        items@,
                        collect,
                        loc,
                        r,
                        bind_type,
                    ),
                    other => (st, Err(Failure::ListDestructureOnNonList { value: other }.at(loc))),
                }
            },
            RawExpr::Null => (st, Err(invalid_target("`null`"@, loc))),
            RawExpr::Bool { .. } => (st, Err(invalid_target("a boolean literal"@, loc))),
            RawExpr::Int { .. } => (st, Err(invalid_target("an integer literal"@, loc))),
            RawExpr::Str { .. } => (st, Err(invalid_target("a string literal"@, loc))),
            RawExpr::BinaryOp { .. } => (st, Err(invalid_target("a binary operation"@, loc))),
            RawExpr::Range { .. } => (st, Err(invalid_target("a range operation"@, loc))),
            RawExpr::Func { .. } => (st, Err(invalid_target("an anonymous function"@, loc))),
            RawExpr::Call { .. } => (st, Err(invalid_target("a function call"@, loc))),
        }
    }
}

/// What is stored where `cur` was: `rhs`, or with an operator what it gives
/// on `cur` and `rhs`.
pub open spec fn stored_spec(
    st: St,
    cur: SVal,
    rhs: SVal,
    op: Option<(BinaryOp, Location)>,
    context: Context,
) -> Out<SVal> {
    match op {
        None => (st, Ok(rhs)),
        Some(o) => {
            let (st1, r) = apply_binary_operation_spec(st, o.0, o.1, cur.v, rhs.v);
            match r {
                Err(e) => (st1, Err(e.within(context))),
                Ok(v) => (st1, Ok(unsourced(v))),
            }
        },
    }
}

/// `expr[location]` bound to `rhs`: the item of a list at that index is
/// replaced, which must be there; an object gets the value under that key.
/// With an operator the key must be there too.
#[verifier::opaque]
pub open spec fn bind_index_spec(
    b: Builtins,
    st: St,
    scopes: Seq<ScopeRef>,
    names: Names,
    expr: Expr,
    location: Expr,
    loc: Location,
    rhs: SVal,
    op: Option<(BinaryOp, Location)>,
) -> Out<Names>
    decreases st.fuel, 20nat, 0nat,
{
    let (st1, r) = after(st, eval_expr_spec(b, st, scopes, expr));
    match r {
        Err(e) => (st1, Err(e.within(Context::EvalExprFailed))),
        Ok(v) => match v.v {
            Val::List(items) => {
                let (st2, ri) = eval_expr_to_index_spec(b, st1, scopes, location);
                match ri {
                    Err(e) => (st2, Err(e.within(Context::EvalListIndexFailed))),
                    Ok(n) => if n >= st2.lists[items as int].len() {
                        (st2, Err(Failure::OutOfListBounds { index: n }.at(loc)))
                    } else {
                        let (st3, rv) = stored_spec(
                            st2,
                            st2.lists[items as int][n as int],
                            rhs,
                            op,
                            Context::BinOpAssignListIndexFailed,
                        );
                        match rv {
                            Err(e) => (st3, Err(e)),
                            Ok(new) => (st3.set_item(items as int, n as int, new), Ok(names)),
                        }
                    },
                }
            },
            Val::Object(props) => {
                let (st2, rn) = eval_expr_to_str_spec(b, st1, scopes, "property"@, location);
                match rn {
                    Err(e) => (st2, Err(e.within(Context::EvalObjectIndexFailed))),
                    Ok(name) => match (op, lookup(st2.objects[props as int], name)) {
                        (None, _) => (st2.put_prop(props as int, name, rhs), Ok(names)),
                        (Some(_), None) => (
                            st2,
                            Err(Failure::OpOnUndefinedIndex { name }.at(loc)),
                        ),
                        (Some(_), Some(cur)) => {
                            let (st3, rv) = stored_spec(
                                st2,
                                cur,
                                rhs,
                                op,
                                Context::BinOpAssignObjectIndexFailed,
                            );
                            match rv {
                                Err(e) => (st3, Err(e)),
                                Ok(new) => (st3.put_prop(props as int, name, new), Ok(names)),
                            }
                        },
                    },
                }
            },
            _ => (st1, Err(Failure::ValueNotIndexAssignable.at(loc))),
        },
    }
}

/// `expr.name` bound to `rhs`: the object that `expr` gives gets the value
/// under `name`. With an operator the name must be there. A type property
/// cannot be bound.
#[verifier::opaque]
pub open spec fn bind_prop_spec(
    b: Builtins,
    st: St,
    scopes: Seq<ScopeRef>,
    names: Names,
    expr: Expr,
    name: Seq<char>,
    type_prop: bool,
    loc: Location,
    rhs: SVal,
    op: Option<(BinaryOp, Location)>,
) -> Out<Names>
    decreases st.fuel, 20nat, 0nat,
{
    if type_prop {
        (st, Err(Failure::AssignToTypeProp.at(loc)))
    } else {
        let (st1, r) = eval_expr_spec(b, st, scopes, expr);
        match r {
            Err(e) => (st1, Err(e.within(Context::EvalExprFailed))),
            Ok(v) => match v.v {
                Val::Object(props) => match (op, lookup(st1.objects[props as int], name)) {
                    (None, _) => (st1.put_prop(props as int, name, rhs), Ok(names)),
                    (Some(_), None) => (st1, Err(Failure::OpOnUndefinedProp { name }.at(loc))),
                    (Some(_), Some(cur)) => {
                        let (st2, rv) = stored_spec(
                            st1,
                            cur,
                            rhs,
                            op,
                            Context::BinOpAssignPropFailed,
                        );
                        match rv {
                            Err(e) => (st2, Err(e)),
                            Ok(new) => (st2.put_prop(props as int, name, new), Ok(names)),
                        }
                    },
                },
                other => (st1, Err(Failure::PropAccessOnNonObject { value: other }.at(loc))),
            },
        }
    }
}

/// Each byte of `s` as a string of its own.
pub open spec fn bytes_as_items(s: Seq<u8>) -> Seq<SVal> {
    Seq::new(s.len(), |i: int| unsourced(Val::Str(seq![s[i]])))
}

/// `expr[start:end]` bound to `rhs`: `expr` must give a list, and `rhs` be a
/// list, or a string, which stands for the list of its bytes.
#[verifier::opaque]
pub open spec fn bind_range_spec(
    b: Builtins,
    st: St,
    scopes: Seq<ScopeRef>,
    expr: Expr,
    start: Option<Box<Expr>>,
    end: Option<Box<Expr>>,
    loc: Location,
    rhs: SVal,
) -> Out<()>
    decreases st.fuel, 20nat, 0nat,
{
    let (st1, r) = after(st, eval_expr_spec(b, st, scopes, expr));
    match r {
        Err(e) => (st1, Err(e.within(Context::EvalExprFailed))),
        Ok(v) => match v.v {
            Val::List(lhs_items) => match rhs.v {
                Val::List(rhs_items) => bind_range_index_spec(
                    b,
                    st1,
                    scopes,
                    lhs_items,
                    start,
                    end,
                    loc,
                    st1.lists[rhs_items as int],
                ),
                Val::Str(s) => bind_range_index_spec(
                    b,
                    st1,
                    scopes,
                    lhs_items,
                    start,
                    end,
                    loc,
                    bytes_as_items(s),
                ),
                other => (
                    st1,
                    Err(Failure::RangeIndexAssignOnNonIndexable { value: other }.at(loc)),
                ),
            },
            _ => (st1, Err(Failure::ValueNotRangeIndexAssignable.at(loc))),
        },
    }
}

/// The state in which the items of list `r` from `start + i` on are those
/// of `items` from `i` on.
pub open spec fn overwrite_spec(st: St, r: ListRef, start: int, items: Seq<SVal>, i: int) -> St
    decreases items.len() - i,
{
    if i < 0 || i >= items.len() {
        st
    } else {
        overwrite_spec(st.set_item(r as int, start + i, items[i]), r, start, items, i + 1)
    }
}

/// The items of list `lhs_items` from `start`, or from 0, up to `end`, or
/// to the number of the new items, replaced by `rhs_items`, which must be
/// as many. The bounds are evaluated first; they must lie in the list,
/// `start` before `end`.
#[verifier::opaque]
pub open spec fn bind_range_index_spec(
    b: Builtins,
    st: St,
    scopes: Seq<ScopeRef>,
    lhs_items: ListRef,
    start: Option<Box<Expr>>,
    end: Option<Box<Expr>>,
    loc: Location,
    rhs_items: Seq<SVal>,
) -> Out<()>
    decreases st.fuel, 4nat, 0nat,
{
    let (st1, rs) = after(st, eval_bound_spec(b, st, scopes, start, Context::EvalStartIndexFailed));
    match rs {
        Err(e) => (st1, Err(e)),
        Ok(maybe_start) => {
            let (st2, re) = eval_bound_spec(b, st1, scopes, end, Context::EvalEndIndexFailed);
            match re {
                Err(e) => (st2, Err(e)),
                Ok(maybe_end) => {
                    let rhs_len = rhs_items.len() as usize;
                    let start = match maybe_start {
                        Some(n) => n,
                        None => 0,
                    };
                    let end = match maybe_end {
                        Some(n) => n,
                        None => rhs_len,
                    };
                    let list_len = st2.lists[lhs_items as int].len() as usize;
                    if start > list_len {
                        (
                            st2,
                            Err(Failure::RangeStartOutOfListBounds { start, list_len }.at(loc)),
                        )
                    } else if start >= end {
                        (st2, Err(Failure::RangeStartNotBeforeEnd { start, end }.at(loc)))
                    } else if end > list_len {
                        (st2, Err(Failure::RangeEndOutOfListBounds { end, list_len }.at(loc)))
                    } else if end - start != rhs_len {
                        (
                            st2,
                            Err(
                                Failure::RangeIndexItemMismatch {
                                    range_len: (end - start) as usize,
                                    rhs_len,
                                }.at(loc),
                            ),
                        )
                    } else {
                        (overwrite_spec(st2, lhs_items, start as int, rhs_items, 0), Ok(()))
                    }
                },
            }
        },
    }
}

/// The keys of `es`, in their order.
pub open spec fn keys_of(es: Entries<SVal>) -> Names {
    Seq::new(es.len(), |i: int| es[i].0)
}

/// The entries of `es` from `i` on whose key is one of `initial` and none of
/// `consumed`.
pub open spec fn rest_of(es: Entries<SVal>, initial: Names, consumed: Names, i: int) -> Entries<
    SVal,
>
    decreases es.len() - i,
{
    if i < 0 || i >= es.len() {
        seq![]
    } else if initial.contains(es[i].0) && !consumed.contains(es[i].0) {
        seq![es[i]] + rest_of(es, initial, consumed, i + 1)
    } else {
        rest_of(es, initial, consumed, i + 1)
    }
}

/// The items of the object pattern `lhs` from `i` on bound to the
/// properties of object `rhs`: a pair binds its pattern to the property of
/// its name, a shorthand binds the variable to the property of the same
/// name, and a collecting item, which must be the last, binds its variable
/// to a new object of the properties that the object had when the binding
/// began and that no item before it has named.
#[verifier::opaque]
pub open spec fn bind_object_spec(
    b: Builtins,
    st: St,
    scopes: Seq<ScopeRef>,
    names: Names,
    lhs: Seq<PropItem>,
    rhs: ObjectRef,
    initial: Names,
    consumed: Names,
    i: int,
    bind_type: BindType,
) -> Out<Names>
    decreases st.fuel, 4nat, lhs.len() - i,
{
    if i < 0 || i >= lhs.len() {
        (st, Ok(names))
    } else {
        match lhs[i] {
            PropItem::Single { expr, is_spread, collect } => if is_spread {
                (st, Err(Failure::SpreadOnObjectDestructure.at(expr.1)))
            } else {
                match expr.0 {
                    RawExpr::Var { name } => if collect {
                        if i != lhs.len() - 1 {
                            (st, Err(Failure::ObjectCollectIsNotLast.at(expr.1)))
                        } else {
                            let rest = rest_of(st.objects[rhs as int], initial, consumed, 0);
                            let st1 = st.with_object(rest);
                            let (st2, r) = bind_next_name_spec(
                                st1,
                                scopes,
                                names,
                                name@,
                                expr.1,
                                unsourced(Val::Object(st.objects.len() as usize)),
                                bind_type,
                            );
                            (st2, ctx(r, Context::BindObjectCollectFailed))
                        }
                    } else {
                        let (st1, r) = after(
                            st,
                            bind_object_prop_spec(
                                b,
                                st,
                                scopes,
                                names,
                                expr.0,
                                expr.1,
                                rhs,
                                name@,
                                expr.1,
                                bind_type,
                            ),
                        );
                        match r {
                            Err(e) => (st1, Err(e.within(Context::BindObjectSingleFailed))),
                            Ok(names1) => bind_object_spec(
                                b,
                                st1,
                                scopes,
                                names1,
                                lhs,
                                rhs,
                                initial,
                                consumed.push(name@),
                                i + 1,
                                bind_type,
                            ),
                        }
                    },
                    _ => (st, Err(Failure::ObjectPropShorthandNotVar.at(expr.1))),
                }
            },
            PropItem::Pair { name, value } => {
                let (st1, rn) = after(
                    st,
                    eval_expr_to_str_spec(b, st, scopes, "property"@, name),
                );
                match rn {
                    Err(e) => (st1, Err(e.within(Context::EvalObjectIndexFailed))),
                    Ok(prop_name) => {
                        let (st2, r) = after(
                            st1,
                            bind_object_prop_spec(
                                b,
                                st1,
                                scopes,
                                names,
                                value.0,
                                value.1,
                                rhs,
                                prop_name,
                                name.1,
                                bind_type,
                            ),
                        );
                        match r {
                            Err(e) => (st2, Err(e.within(Context::BindObjectPairFailed))),
                            Ok(names1) => bind_object_spec(
                                b,
                                st2,
                                scopes,
                                names1,
                                lhs,
                                rhs,
                                initial,
                                consumed.push(prop_name),
                                i + 1,
                                bind_type,
                            ),
                        }
                    },
                }
            },
        }
    }
}

/// The pattern `lhs` bound to what object `rhs` holds under `prop_name`,
/// which must be there. The name `_` binds nothing.
#[verifier::opaque]
pub open spec fn bind_object_prop_spec(
    b: Builtins,
    st: St,
    scopes: Seq<ScopeRef>,
    names: Names,
    lhs: RawExpr,
    lhs_loc: Location,
    rhs: ObjectRef,
    prop_name: Seq<char>,
    prop_loc: Location,
    bind_type: BindType,
) -> Out<Names>
    decreases st.fuel, 3nat, 0nat,
{
    if prop_name == "_"@ {
        (st, Ok(names))
    } else {
        match lookup(st.objects[rhs as int], prop_name) {
            None => (st, Err(Failure::PropNotFound { name: prop_name }.at(prop_loc))),
            Some(v) => {
                let (st1, r) = bind_next_spec(
                    b,
                    st,
                    scopes,
                    names,
                    lhs,
                    lhs_loc,
                    v,
                    None,
                    bind_type,
                );
                (st1, ctx(r, Context::BindNextFailed))
            },
        }
    }
}

/// The number of items that a list pattern of `lhs_len` items binds one by
/// one when it collects.
pub open spec fn fixed_items(lhs_len: usize) -> usize {
    if lhs_len > 0 {
        (lhs_len - 1) as usize
    } else {
        0
    }
}

/// The list pattern `lhs` bound to list `rhs`: the list must have as many
/// items as the pattern, or with a collecting pattern at least as many as
/// the pattern has before its last item.
#[verifier::opaque]
pub open spec fn bind_list_spec(
    b: Builtins,
    st: St,
    scopes: Seq<ScopeRef>,
    names: Names,
    lhs: Seq<ListItem>,
    collect: bool,
    loc: Location,
    rhs: ListRef,
    bind_type: BindType,
) -> Out<Names>
    decreases st.fuel, 5nat, 0nat,
{
    let lhs_len = lhs.len() as usize;
    let rhs_len = st.lists[rhs as int].len() as usize;
    if collect && fixed_items(lhs_len) > rhs_len {
        (st, Err(Failure::ListCollectTooFew { lhs_len, rhs_len }.at(loc)))
    } else if !collect && lhs_len != rhs_len {
        (st, Err(Failure::ListDestructureItemMismatch { lhs_len, rhs_len }.at(loc)))
    } else {
        bind_list_items_spec(b, st, scopes, names, lhs, collect, loc, rhs, 0, bind_type)
    }
}

/// The items of the list pattern `lhs` from `i` on bound to the items of
/// list `rhs` at their places; the last item of a collecting pattern is
/// bound to a new list of the items from its place on.
#[verifier::opaque]
pub open spec fn bind_list_items_spec(
    b: Builtins,
    st: St,
    scopes: Seq<ScopeRef>,
    names: Names,
    lhs: Seq<ListItem>,
    collect: bool,
    loc: Location,
    rhs: ListRef,
    i: int,
    bind_type: BindType,
) -> Out<Names>
    decreases st.fuel, 4nat, lhs.len() - i,
{
    if i < 0 || i >= lhs.len() {
        (st, Ok(names))
    } else if lhs[i].is_spread {
        (st, Err(Failure::SpreadInListDestructure { index: i as usize }.at(loc)))
    } else {
        let items = st.lists[rhs as int];
        let (st1, v) = if collect && i == lhs.len() - 1 {
            (
                st.with_list(items.subrange(i, items.len() as int)),
                unsourced(Val::List(st.lists.len() as usize)),
            )
        } else {
            (st, items[i])
        };
        let (st2, r) = after(
            st1,
            bind_next_spec(
                b,
                st1,
                scopes,
                names,
                lhs[i].expr.0,
                lhs[i].expr.1,
                v,
                None,
                bind_type,
            ),
        );
        match r {
            Err(e) => (st2, Err(e.within(Context::BindListItemFailed))),
            Ok(names1) => bind_list_items_spec(
                b,
                st2,
                scopes,
                names1,
                lhs,
                collect,
                loc,
                rhs,
                i + 1,
                bind_type,
            ),
        }
    }
}

} // verus!
