//! Expressions: the walk over an expression, operators and list literals.

use vstd::prelude::*;

use crate::ast::BinaryOp;
use crate::ast::Expr;
use crate::ast::ListItem;
use crate::ast::Location;
use crate::ast::RawExpr;
use crate::eval::EvaluationContext;
use crate::eval::access::eval_index;
use crate::eval::access::eval_prop;
use crate::eval::access::eval_range;
use crate::eval::access::eval_range_index;
use crate::eval::call::eval_call;
use crate::eval::error::Context;
use crate::eval::error::Error;
use crate::eval::error::Failure;
use crate::eval::error::Result;
use crate::eval::error::fail_at;
use crate::eval::error::in_context;
use crate::eval::error::rview;
use crate::eval::interp::interpolate_string;
use crate::eval::machine::Machine;
use crate::eval::message::placed;
use crate::eval::object::eval_object;
use crate::eval::ops::apply_binary_operation;
use crate::eval::scope::ScopeStack;
use crate::eval::semantics::eval_binary_op_spec;
use crate::eval::semantics::eval_call_spec;
use crate::eval::semantics::eval_expr_spec;
use crate::eval::semantics::eval_index_spec;
use crate::eval::semantics::eval_list_items_spec;
use crate::eval::semantics::eval_list_spec;
use crate::eval::semantics::eval_object_spec;
use crate::eval::semantics::eval_prop_spec;
use crate::eval::semantics::eval_range_index_spec;
use crate::eval::semantics::eval_range_spec;
use crate::eval::semantics::interpolate_string_spec;
use crate::eval::semantics::ready;
use crate::eval::state::lemma_grows_svals_ok;
use crate::eval::state::lemma_grows_transitive;
use crate::eval::value::Object;
use crate::eval::value::SVal;
use crate::eval::value::SourcedValue;
use crate::eval::value::Value;
use crate::eval::value::new_bool;
use crate::eval::value::new_func;
use crate::eval::value::new_int;
use crate::eval::value::new_list;
use crate::eval::value::new_null;
use crate::eval::value::new_str;
use crate::eval::value::new_str_from_string;
use crate::eval::value::new_val_ref_with_no_source;
use crate::eval::value::svals;

verus! {

/// Evaluates the expression `expr` in the scopes of `scopes`. An expression
/// declares nothing: every scope that was there before has the names it
/// had.
pub fn eval_expr<'a>(
    context: &EvaluationContext<'a>,
    m: &mut Machine<'a>,
    scopes: &ScopeStack,
    expr: &'a Expr,
) -> (r: Result<SourcedValue>)
    requires
        ready(*context.builtins, old(m)@, scopes@),
    ensures
        (final(m)@, rview(r)) == eval_expr_spec(*context.builtins, old(m)@, scopes@, *expr),
        ready(*context.builtins, final(m)@, scopes@),
        old(m)@.grows_to(final(m)@),
        old(m)@.keeps_names(final(m)@, None),
        r matches Ok(v) ==> final(m)@.sval_ok(v@) && final(m)@.fuel < old(m)@.fuel,
        r matches Err(e) ==> placed(e@),
    decreases old(m)@.fuel, 0nat, 0nat,
{
    proof {
        reveal(eval_expr_spec);
        reveal(interpolate_string_spec);
        reveal(eval_binary_op_spec);
        reveal(eval_list_spec);
        reveal(eval_object_spec);
        reveal(eval_index_spec);
        reveal(eval_range_index_spec);
        reveal(eval_range_spec);
        reveal(eval_prop_spec);
        reveal(eval_call_spec);
    }
    let loc = expr.1;
    if !m.tick() {
        return fail_at(Error::StepLimitReached, loc);
    }
    match &expr.0 {
        RawExpr::Null => Ok(new_null()),
        RawExpr::Bool { b } => Ok(new_bool(*b)),
        RawExpr::Int { n } => Ok(new_int(*n)),
        RawExpr::Str { s, interpolation_slots } => {
            match interpolation_slots {
                Some(slots) => {
                    let bytes = s.as_str().as_bytes_vec();
                    let v = in_context(
                        interpolate_string(context, m, scopes, &bytes, slots, loc),
                        Context::InterpolateStringFailed,
                    )?;
                    Ok(new_str(v))
                },
                None => Ok(new_str_from_string(s.clone())),
            }
        },
        RawExpr::Var { name } => {
            match scopes.get(m, name) {
                Some(v) => Ok(new_val_ref_with_no_source(v.v)),
                None => fail_at(Error::Undefined { name: name.clone() }, loc),
            }
        },
        RawExpr::BinaryOp { op, op_loc, lhs, rhs } => eval_binary_op(
            context,
            m,
            scopes,
            op,
            op_loc,
            lhs,
            rhs,
        ),
        RawExpr::List { items, collect } => eval_list(context, m, scopes, items, *collect, loc),
        RawExpr::Object { props } => eval_object(context, m, scopes, props, loc),
        RawExpr::Index { expr: source, location } => eval_index(
            context,
            m,
            scopes,
            source,
            location,
            loc,
        ),
        RawExpr::RangeIndex { expr: source, start, end } => eval_range_index(
            context,
            m,
            scopes,
            source,
            start,
            end,
            loc,
        ),
        RawExpr::Range { start, end } => eval_range(context, m, scopes, start, end),
        RawExpr::Prop { expr: source, name, type_prop } => eval_prop(
            context,
            m,
            scopes,
            source,
            name,
            *type_prop,
            loc,
        ),
        RawExpr::Func { args, collect_args, stmts } => {
            let closure = scopes.clone();
            Ok(new_func(m, None, args, *collect_args, stmts, closure))
        },
        RawExpr::Call { func, args } => in_context(
            eval_call(context, m, scopes, func, args, loc),
            Context::EvalCallFailed,
        ),
    }
}

/// Evaluates both operands, the left one first, and applies the operator.
pub fn eval_binary_op<'a>(
    context: &EvaluationContext<'a>,
    m: &mut Machine<'a>,
    scopes: &ScopeStack,
    op: &BinaryOp,
    op_loc: &Location,
    lhs: &'a Expr,
    rhs: &'a Expr,
) -> (r: Result<SourcedValue>)
    requires
        ready(*context.builtins, old(m)@, scopes@),
    ensures
        (final(m)@, rview(r)) == eval_binary_op_spec(
            *context.builtins,
            old(m)@,
            scopes@,
            *op,
            *op_loc,
            *lhs,
            *rhs,
        ),
        ready(*context.builtins, final(m)@, scopes@),
        old(m)@.grows_to(final(m)@),
        old(m)@.keeps_names(final(m)@, None),
        r matches Ok(v) ==> final(m)@.sval_ok(v@),
        r matches Err(e) ==> placed(e@),
    decreases old(m)@.fuel, 20nat, 0nat,
{
    proof {
        reveal(eval_binary_op_spec);
        reveal(eval_expr_spec);
    }
    let lhs_val = in_context(eval_expr(context, m, scopes, lhs), Context::EvalBinOpLhsFailed)?;
    let ghost st1 = m@;
    let rhs_val = in_context(eval_expr(context, m, scopes, rhs), Context::EvalBinOpRhsFailed)?;
    let ghost st2 = m@;
    proof {
        lemma_grows_transitive(old(m)@, st1, st2);
    }
    let v = in_context(
        apply_binary_operation(m, op, op_loc, &lhs_val.v, &rhs_val.v),
        Context::ApplyBinOpFailed,
    )?;
    proof {
        lemma_grows_transitive(old(m)@, st2, m@);
    }
    Ok(new_val_ref_with_no_source(v))
}

/// Evaluates the items of a list literal or of an argument list.
pub fn eval_list_items<'a>(
    context: &EvaluationContext<'a>,
    m: &mut Machine<'a>,
    scopes: &ScopeStack,
    items: &'a Vec<ListItem>,
) -> (r: Result<Vec<SourcedValue>>)
    requires
        ready(*context.builtins, old(m)@, scopes@),
    ensures
        match r {
            Ok(vals) => (final(m)@, Ok::<Seq<SVal>, Failure>(svals(vals@))),
            Err(e) => (final(m)@, Err::<Seq<SVal>, Failure>(e@)),
        } == eval_list_items_spec(*context.builtins, old(m)@, scopes@, items@, 0, seq![]),
        ready(*context.builtins, final(m)@, scopes@),
        old(m)@.grows_to(final(m)@),
        old(m)@.keeps_names(final(m)@, None),
        r matches Ok(vals) ==> final(m)@.svals_ok(svals(vals@)),
        r matches Err(e) ==> placed(e@),
    decreases old(m)@.fuel, 3nat, 0nat,
{
    proof {
        reveal(eval_list_items_spec);
        reveal(eval_expr_spec);
    }
    let mut vals: Vec<SourcedValue> = Vec::new();
    let mut i: usize = 0;
    assert(svals(vals@) =~= seq![]);
    while i < items.len()
        invariant
            i <= items.len(),
            ready(*context.builtins, m@, scopes@),
            old(m)@.grows_to(m@),
            old(m)@.keeps_names(m@, None),
            m@.svals_ok(svals(vals@)),
            eval_list_items_spec(*context.builtins, old(m)@, scopes@, items@, 0, seq![])
                == eval_list_items_spec(
                *context.builtins,
                m@,
                scopes@,
                items@,
                i as int,
                svals(vals@),
            ),
        decreases items.len() - i,
    {
        proof {
            reveal(eval_list_items_spec);
            reveal(eval_expr_spec);
        }
        let item = &items[i];
        let ghost before = m@;
        let ghost acc = svals(vals@);
        let v = in_context(
            eval_expr(context, m, scopes, &item.expr),
            Context::EvalListItemFailed,
        )?;
        proof {
            lemma_grows_transitive(old(m)@, before, m@);
            lemma_grows_svals_ok(before, m@, acc);
        }
        if !item.is_spread {
            vals.push(v);
            assert(svals(vals@) =~= acc.push(v@));
        } else {
            match v.v {
                Value::List(list) => {
                    let mut more = m.list_range(list, 0, m.list_len(list));
                    proof {
                        let all = m@.lists[list as int];
                        assert(all.subrange(0, all.len() as int) =~= all);
                        assert(m@.svals_ok(all));
                    }
                    vals.append(&mut more);
                    assert(svals(vals@) =~= acc + m@.lists[list as int]);
                },
                value => {
                    return fail_at(Error::SpreadNonListInList { value }, item.expr.1);
                },
            }
        }
        i = i + 1;
    }
    Ok(vals)
}

/// Evaluates a list literal.
pub fn eval_list<'a>(
    context: &EvaluationContext<'a>,
    m: &mut Machine<'a>,
    scopes: &ScopeStack,
    items: &'a Vec<ListItem>,
    collect: bool,
    loc: Location,
) -> (r: Result<SourcedValue>)
    requires
        ready(*context.builtins, old(m)@, scopes@),
    ensures
        (final(m)@, rview(r)) == eval_list_spec(
            *context.builtins,
            old(m)@,
            scopes@,
            items@,
            collect,
            loc,
        ),
        ready(*context.builtins, final(m)@, scopes@),
        old(m)@.grows_to(final(m)@),
        old(m)@.keeps_names(final(m)@, None),
        r matches Ok(v) ==> final(m)@.sval_ok(v@),
        r matches Err(e) ==> placed(e@),
    decreases old(m)@.fuel, 20nat, 0nat,
{
    proof {
        reveal(eval_list_spec);
        reveal(eval_list_items_spec);
    }
    if collect {
        return fail_at(Error::ListCollectOutsideDestructure, loc);
    }
    let vals = match eval_list_items(context, m, scopes, items) {
        Ok(vals) => vals,
        Err(e) => {
            return in_context(Err(e), Context::EvalListItemsFailed);
        },
    };
    let ghost st1 = m@;
    let v = new_list(m, vals);
    proof {
        lemma_grows_transitive(old(m)@, st1, m@);
    }
    Ok(v)
}

} // verus!
