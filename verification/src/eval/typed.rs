//! Expressions that must give a value of one type.

use vstd::prelude::*;


use crate::ast::Expr;
use crate::ast::Location;
use crate::eval::EvaluationContext;
use crate::eval::error::Context;
use crate::eval::error::Error;
use crate::eval::error::Result;
use crate::eval::error::fail_at;
use crate::eval::error::in_context;
use crate::eval::error::rview;
use crate::eval::expr::eval_expr;
use crate::eval::machine::Machine;
use crate::eval::message::placed;
use crate::eval::scope::ScopeStack;
use crate::eval::semantics::eval_bound_spec;
use crate::eval::semantics::eval_expr_spec;
use crate::eval::semantics::eval_expr_to_bool_spec;
use crate::eval::semantics::eval_expr_to_i64_spec;
use crate::eval::semantics::eval_expr_to_index_spec;
use crate::eval::semantics::eval_expr_to_str_spec;
use crate::eval::semantics::eval_read_index_spec;
use crate::eval::semantics::eval_read_key_spec;
use crate::eval::semantics::ready;
use crate::eval::value::Value;
use crate::text::string_from_utf8;

verus! {

/// Evaluates `expr` to the text of a string.
pub fn eval_expr_to_str<'a>(
    context: &EvaluationContext<'a>,
    m: &mut Machine<'a>,
    scopes: &ScopeStack,
    descr: &str,
    expr: &'a Expr,
) -> (r: Result<String>)
    requires
        ready(*context.builtins, old(m)@, scopes@),
    ensures
        (final(m)@, rview(r)) == eval_expr_to_str_spec(
            *context.builtins,
            old(m)@,
            scopes@,
            descr@,
            *expr,
        ),
        ready(*context.builtins, final(m)@, scopes@),
        old(m)@.grows_to(final(m)@),
        old(m)@.keeps_names(final(m)@, None),
        r is Ok ==> final(m)@.fuel < old(m)@.fuel,
        r matches Err(e) ==> placed(e@),
    decreases old(m)@.fuel, 1nat, 0nat,
{
    proof {
        reveal(eval_expr_to_str_spec);
        reveal(eval_expr_spec);
    }
    let value = in_context(eval_expr(context, m, scopes, expr), Context::EvalExprFailed)?;
    match value.v {
        Value::Str(raw_str) => {
            match string_from_utf8(raw_str) {
                Ok(s) => Ok(s),
                Err(reason) => fail_at(
                    Error::StringConstructionFailed { reason, descr: descr.to_owned() },
                    expr.1,
                ),
            }
        },
        value => fail_at(
            Error::IncorrectType {
                descr: descr.to_owned(),
                exp_type: String::from_str("string"),
                value,
            },
            expr.1,
        ),
    }
}

/// Evaluates `expr` to a boolean.
pub fn eval_expr_to_bool<'a>(
    context: &EvaluationContext<'a>,
    m: &mut Machine<'a>,
    scopes: &ScopeStack,
    descr: &str,
    expr: &'a Expr,
) -> (r: Result<bool>)
    requires
        ready(*context.builtins, old(m)@, scopes@),
    ensures
        (final(m)@, rview(r)) == eval_expr_to_bool_spec(
            *context.builtins,
            old(m)@,
            scopes@,
            descr@,
            *expr,
        ),
        ready(*context.builtins, final(m)@, scopes@),
        old(m)@.grows_to(final(m)@),
        old(m)@.keeps_names(final(m)@, None),
        r is Ok ==> final(m)@.fuel < old(m)@.fuel,
        r matches Err(e) ==> placed(e@),
    decreases old(m)@.fuel, 1nat, 0nat,
{
    proof {
        reveal(eval_expr_to_bool_spec);
        reveal(eval_expr_spec);
    }
    let value = in_context(eval_expr(context, m, scopes, expr), Context::EvalExprFailed)?;
    match value.v {
        Value::Bool(b) => Ok(b),
        value => fail_at(
            Error::IncorrectType {
                descr: descr.to_owned(),
                exp_type: String::from_str("bool"),
                value,
            },
            expr.1,
        ),
    }
}

/// Evaluates `expr` to an integer.
pub fn eval_expr_to_i64<'a>(
    context: &EvaluationContext<'a>,
    m: &mut Machine<'a>,
    scopes: &ScopeStack,
    descr: &str,
    expr: &'a Expr,
) -> (r: Result<i64>)
    requires
        ready(*context.builtins, old(m)@, scopes@),
    ensures
        (final(m)@, rview(r)) == eval_expr_to_i64_spec(
            *context.builtins,
            old(m)@,
            scopes@,
            descr@,
            *expr,
        ),
        ready(*context.builtins, final(m)@, scopes@),
        old(m)@.grows_to(final(m)@),
        old(m)@.keeps_names(final(m)@, None),
        r is Ok ==> final(m)@.fuel < old(m)@.fuel,
        r matches Err(e) ==> placed(e@),
    decreases old(m)@.fuel, 1nat, 0nat,
{
    proof {
        reveal(eval_expr_to_i64_spec);
        reveal(eval_expr_spec);
    }
    let value = in_context(eval_expr(context, m, scopes, expr), Context::EvalExprFailed)?;
    match value.v {
        Value::Int(n) => Ok(n),
        value => fail_at(
            Error::IncorrectType {
                descr: descr.to_owned(),
                exp_type: String::from_str("int"),
                value,
            },
            expr.1,
        ),
    }
}

/// Evaluates `expr` to an index.
pub fn eval_expr_to_index<'a>(
    context: &EvaluationContext<'a>,
    m: &mut Machine<'a>,
    scopes: &ScopeStack,
    expr: &'a Expr,
) -> (r: Result<usize>)
    requires
        ready(*context.builtins, old(m)@, scopes@),
    ensures
        (final(m)@, rview(r)) == eval_expr_to_index_spec(
            *context.builtins,
            old(m)@,
            scopes@,
            *expr,
        ),
        ready(*context.builtins, final(m)@, scopes@),
        old(m)@.grows_to(final(m)@),
        old(m)@.keeps_names(final(m)@, None),
        r matches Err(e) ==> placed(e@),
    decreases old(m)@.fuel, 2nat, 0nat,
{
    proof {
        reveal(eval_expr_to_index_spec);
        reveal(eval_expr_to_i64_spec);
    }
    let index = in_context(
        eval_expr_to_i64(context, m, scopes, "index", expr),
        Context::EvalIndexToI64Failed,
    )?;
    if index < 0 {
        return fail_at(Error::NegativeIndex { index }, expr.1);
    }
    if index as u64 > usize::MAX as u64 {
        return in_context(fail_at(Error::CastFailed, expr.1), Context::ConvertIndexToUsizeFailed);
    }
    Ok(index as usize)
}

/// Evaluates a bound of a range, if there is one.
pub fn eval_bound<'a>(
    context: &EvaluationContext<'a>,
    m: &mut Machine<'a>,
    scopes: &ScopeStack,
    bound: &'a Option<Box<Expr>>,
    failed: Context,
) -> (r: Result<Option<usize>>)
    requires
        ready(*context.builtins, old(m)@, scopes@),
    ensures
        (final(m)@, rview(r)) == eval_bound_spec(
            *context.builtins,
            old(m)@,
            scopes@,
            *bound,
            failed,
        ),
        ready(*context.builtins, final(m)@, scopes@),
        old(m)@.grows_to(final(m)@),
        old(m)@.keeps_names(final(m)@, None),
        r matches Err(e) ==> placed(e@),
    decreases old(m)@.fuel, 3nat, 0nat,
{
    proof {
        reveal(eval_bound_spec);
        reveal(eval_expr_to_index_spec);
    }
    match bound {
        Some(e) => {
            let n = in_context(eval_expr_to_index(context, m, scopes, e), failed)?;
            Ok(Some(n))
        },
        None => Ok(None),
    }
}

/// Evaluates `expr` to the index at which a string or a list is read.
pub fn eval_read_index<'a>(
    context: &EvaluationContext<'a>,
    m: &mut Machine<'a>,
    scopes: &ScopeStack,
    expr: &'a Expr,
    loc: Location,
) -> (r: Result<usize>)
    requires
        ready(*context.builtins, old(m)@, scopes@),
    ensures
        (final(m)@, rview(r)) == eval_read_index_spec(
            *context.builtins,
            old(m)@,
            scopes@,
            *expr,
            loc,
        ),
        ready(*context.builtins, final(m)@, scopes@),
        old(m)@.grows_to(final(m)@),
        old(m)@.keeps_names(final(m)@, None),
        r matches Err(e) ==> placed(e@),
    decreases old(m)@.fuel, 2nat, 0nat,
{
    proof {
        reveal(eval_read_index_spec);
        reveal(eval_expr_spec);
    }
    let value = in_context(eval_expr(context, m, scopes, expr), Context::EvalExprFailed)?;
    match value.v {
        Value::Int(index) => {
            if index < 0 {
                return fail_at(Error::NegativeIndex { index }, expr.1);
            }
            if index as u64 > usize::MAX as u64 {
                return in_context(
                    fail_at(Error::CastFailed, expr.1),
                    Context::ConvertIndexToUsizeFailed,
                );
            }
            Ok(index as usize)
        },
        _ => fail_at(Error::ValueNotIndexable, loc),
    }
}

/// Evaluates `expr` to the key under which an object is read.
pub fn eval_read_key<'a>(
    context: &EvaluationContext<'a>,
    m: &mut Machine<'a>,
    scopes: &ScopeStack,
    expr: &'a Expr,
    loc: Location,
) -> (r: Result<String>)
    requires
        ready(*context.builtins, old(m)@, scopes@),
    ensures
        (final(m)@, rview(r)) == eval_read_key_spec(
            *context.builtins,
            old(m)@,
            scopes@,
            *expr,
            loc,
        ),
        ready(*context.builtins, final(m)@, scopes@),
        old(m)@.grows_to(final(m)@),
        old(m)@.keeps_names(final(m)@, None),
        r matches Err(e) ==> placed(e@),
    decreases old(m)@.fuel, 2nat, 0nat,
{
    proof {
        reveal(eval_read_key_spec);
        reveal(eval_expr_spec);
    }
    let value = in_context(eval_expr(context, m, scopes, expr), Context::EvalExprFailed)?;
    match value.v {
        Value::Str(raw_str) => {
            match string_from_utf8(raw_str) {
                Ok(s) => Ok(s),
                Err(reason) => fail_at(
                    Error::StringConstructionFailed {
                        reason,
                        descr: String::from_str("property"),
                    },
                    expr.1,
                ),
            }
        },
        _ => fail_at(Error::ValueNotIndexable, loc),
    }
}

} // verus!
