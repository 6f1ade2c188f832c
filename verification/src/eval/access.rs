//! Indexing, ranges and properties.

use vstd::prelude::*;

use crate::ast::Expr;
use crate::ast::Location;
use crate::eval::EvaluationContext;
use crate::eval::builtins::Builtins;
use crate::eval::error::Context;
use crate::eval::error::Error;
use crate::eval::error::Result;
use crate::eval::error::at_loc;
use crate::eval::error::fail_at;
use crate::eval::error::in_context;
use crate::eval::error::rview;
use crate::eval::expr::eval_expr;
use crate::eval::machine::Machine;
use crate::eval::message::placed;
use crate::eval::ops::get_list_range_index;
use crate::eval::ops::get_str_range_index;
use crate::eval::scope::ScopeStack;
use crate::eval::semantics::eval_bound_spec;
use crate::eval::semantics::eval_expr_spec;
use crate::eval::semantics::eval_expr_to_i64_spec;
use crate::eval::semantics::eval_expr_to_index_spec;
use crate::eval::semantics::eval_expr_to_str_spec;
use crate::eval::semantics::eval_index_spec;
use crate::eval::semantics::eval_prop_spec;
use crate::eval::semantics::eval_read_index_spec;
use crate::eval::semantics::eval_read_key_spec;
use crate::eval::semantics::eval_range_index_spec;
use crate::eval::semantics::eval_range_spec;
use crate::eval::semantics::int_range;
use crate::eval::semantics::namespace_spec;
use crate::eval::semantics::ready;
use crate::eval::state::lemma_grows_sval_ok;
use crate::eval::state::lemma_grows_transitive;
use crate::eval::state::lemma_lookup_ok;
use crate::eval::typed::eval_bound;
use crate::eval::typed::eval_expr_to_i64;
use crate::eval::typed::eval_read_index;
use crate::eval::typed::eval_read_key;
use crate::eval::typed::eval_expr_to_index;
use crate::eval::typed::eval_expr_to_str;
use crate::eval::value::Object;
use crate::eval::value::ObjectRef;
use crate::eval::value::SourcedValue;
use crate::eval::value::Val;
use crate::eval::value::Value;
use crate::eval::value::new_int;
use crate::eval::value::new_list;
use crate::eval::value::new_str;
use crate::eval::value::new_val_ref_with_no_source;
use crate::eval::value::new_val_ref_with_source;
use crate::eval::value::svals;
use crate::eval::value::unsourced;

verus! {

/// Evaluates `source[location]`.
pub fn eval_index<'a>(
    context: &EvaluationContext<'a>,
    m: &mut Machine<'a>,
    scopes: &ScopeStack,
    source: &'a Expr,
    location: &'a Expr,
    loc: Location,
) -> (r: Result<SourcedValue>)
    requires
        ready(*context.builtins, old(m)@, scopes@),
    ensures
        (final(m)@, rview(r)) == eval_index_spec(
            *context.builtins,
            old(m)@,
            scopes@,
            *source,
            *location,
            loc,
        ),
        ready(*context.builtins, final(m)@, scopes@),
        old(m)@.grows_to(final(m)@),
        old(m)@.keeps_names(final(m)@, None),
        r matches Ok(v) ==> final(m)@.sval_ok(v@),
        r matches Err(e) ==> placed(e@),
    decreases old(m)@.fuel, 20nat, 0nat,
{
    proof {
        reveal(eval_index_spec);
        reveal(eval_expr_spec);
        reveal(eval_read_index_spec);
        reveal(eval_read_key_spec);
    }
    let source_val = in_context(
        eval_expr(context, m, scopes, source),
        Context::EvalSourceExprFailed,
    )?;
    let ghost st1 = m@;
    match &source_val.v {
        Value::Str(s) => {
            let index = in_context(
                eval_read_index(context, m, scopes, location, loc),
                Context::EvalStringIndexFailed,
            )?;
            proof {
                lemma_grows_transitive(old(m)@, st1, m@);
            }
            if index < s.len() {
                let mut c: Vec<u8> = Vec::new();
                c.push(s[index]);
                assert(c@ =~= seq![s@[index as int]]);
                Ok(new_str(c))
            } else {
                fail_at(Error::OutOfStringBounds { index }, loc)
            }
        },
        Value::List(list) => {
            let index = in_context(
                eval_read_index(context, m, scopes, location, loc),
                Context::EvalListIndexFailed,
            )?;
            proof {
                lemma_grows_transitive(old(m)@, st1, m@);
            }
            if index < m.list_len(*list) {
                let v = m.list_get(*list, index);
                proof {
                    assert(m@.svals_ok(m@.lists[*list as int]));
                }
                Ok(new_val_ref_with_no_source(v.v))
            } else {
                fail_at(Error::OutOfListBounds { index }, loc)
            }
        },
        Value::Object(props) => {
            let name = in_context(
                eval_read_key(context, m, scopes, location, loc),
                Context::EvalObjectIndexFailed,
            )?;
            proof {
                lemma_grows_transitive(old(m)@, st1, m@);
            }
            match m.object_get(*props, &name) {
                Some(value) => {
                    proof {
                        assert(m@.props_ok(m@.objects[*props as int]));
                        lemma_lookup_ok(m@, m@.objects[*props as int], name@);
                    }
                    Ok(new_val_ref_with_source(value.v, source_val.v.clone()))
                },
                None => fail_at(Error::PropNotFound { name }, loc),
            }
        },
        _ => fail_at(Error::ValueNotIndexable, loc),
    }
}

/// Evaluates `source[start:end]`: `source`, then `start`, then `end`.
pub fn eval_range_index<'a>(
    context: &EvaluationContext<'a>,
    m: &mut Machine<'a>,
    scopes: &ScopeStack,
    source: &'a Expr,
    start: &'a Option<Box<Expr>>,
    end: &'a Option<Box<Expr>>,
    loc: Location,
) -> (r: Result<SourcedValue>)
    requires
        ready(*context.builtins, old(m)@, scopes@),
    ensures
        (final(m)@, rview(r)) == eval_range_index_spec(
            *context.builtins,
            old(m)@,
            scopes@,
            *source,
            *start,
            *end,
            loc,
        ),
        ready(*context.builtins, final(m)@, scopes@),
        old(m)@.grows_to(final(m)@),
        old(m)@.keeps_names(final(m)@, None),
        r matches Ok(v) ==> final(m)@.sval_ok(v@),
        r matches Err(e) ==> placed(e@),
    decreases old(m)@.fuel, 20nat, 0nat,
{
    proof {
        reveal(eval_range_index_spec);
        reveal(eval_bound_spec);
        reveal(eval_expr_spec);
    }
    let value = in_context(eval_expr(context, m, scopes, source), Context::EvalExprFailed)?;
    let ghost st1 = m@;
    let start_val = eval_bound(context, m, scopes, start, Context::EvalStartIndexFailed)?;
    let ghost st2 = m@;
    proof {
        lemma_grows_transitive(old(m)@, st1, st2);
    }
    let end_val = eval_bound(context, m, scopes, end, Context::EvalEndIndexFailed)?;
    let ghost st3 = m@;
    proof {
        lemma_grows_transitive(old(m)@, st2, st3);
        lemma_grows_transitive(st1, st2, st3);
        lemma_grows_sval_ok(st1, st3, value@);
    }
    match value.v {
        Value::Str(s) => {
            match get_str_range_index(&s, start_val, end_val) {
                Ok(v) => Ok(v),
                Err(source) => Err(
                    at_loc(
                        Error::Context {
                            context: Context::EvalStringRangeIndexFailed,
                            source: Box::new(source),
                        },
                        loc,
                    ),
                ),
            }
        },
        Value::List(items) => {
            let range_values = get_list_range_index(m, &items, start_val, end_val);
            proof {
                lemma_grows_transitive(old(m)@, st3, m@);
            }
            match range_values {
                Ok(v) => Ok(v),
                Err(source) => Err(
                    at_loc(
                        Error::Context {
                            context: Context::EvalListRangeIndexFailed,
                            source: Box::new(source),
                        },
                        loc,
                    ),
                ),
            }
        },
        _ => fail_at(Error::ValueNotRangeIndexable, loc),
    }
}

/// Evaluates `start..end`.
pub fn eval_range<'a>(
    context: &EvaluationContext<'a>,
    m: &mut Machine<'a>,
    scopes: &ScopeStack,
    start: &'a Expr,
    end: &'a Expr,
) -> (r: Result<SourcedValue>)
    requires
        ready(*context.builtins, old(m)@, scopes@),
    ensures
        (final(m)@, rview(r)) == eval_range_spec(
            *context.builtins,
            old(m)@,
            scopes@,
            *start,
            *end,
        ),
        ready(*context.builtins, final(m)@, scopes@),
        old(m)@.grows_to(final(m)@),
        old(m)@.keeps_names(final(m)@, None),
        r matches Ok(v) ==> final(m)@.sval_ok(v@),
        r matches Err(e) ==> placed(e@),
    decreases old(m)@.fuel, 20nat, 0nat,
{
    proof {
        reveal(eval_range_spec);
        reveal(eval_expr_to_i64_spec);
    }
    let from = in_context(
        eval_expr_to_i64(context, m, scopes, "range start", start),
        Context::EvalRangeStartFailed,
    )?;
    let ghost st1 = m@;
    let to = in_context(
        eval_expr_to_i64(context, m, scopes, "range end", end),
        Context::EvalRangeEndFailed,
    )?;
    let ghost st2 = m@;
    proof {
        lemma_grows_transitive(old(m)@, st1, st2);
    }
    let mut range: Vec<SourcedValue> = Vec::new();
    let mut n: i64 = from;
    while n < to
        invariant
            from <= n <= to || (to < from && n == from),
            range.len() == (if n > from {
                n - from
            } else {
                0
            }),
            forall|j: int|
                0 <= j < range.len() ==> (#[trigger] range[j])@ == unsourced(
                    Val::Int((from + j) as i64),
                ),
        decreases to - n,
    {
        proof {
            reveal(eval_range_spec);
            reveal(eval_expr_to_i64_spec);
        }
        range.push(new_int(n));
        n = n + 1;
    }
    proof {
        assert(svals(range@) =~= int_range(from, to));
    }
    let v = new_list(m, range);
    proof {
        lemma_grows_transitive(old(m)@, st2, m@);
    }
    Ok(v)
}

/// The object in which a property of `source` is looked up.
pub fn namespace(builtins: &Builtins, source: &Value, type_prop: bool, loc: Location) -> (r: Result<
    ObjectRef,
>)
    ensures
        rview(r) == namespace_spec(*builtins, source@, type_prop, loc),
{
    if type_prop {
        match source {
            Value::Bool(_) => Ok(builtins.type_functions.bools),
            Value::Int(_) => Ok(builtins.type_functions.ints),
            Value::Str(_) => Ok(builtins.type_functions.strs),
            Value::List(_) => Ok(builtins.type_functions.lists),
            Value::Object(_) => Ok(builtins.type_functions.objects),
            Value::BuiltinFunc { .. } => Ok(builtins.type_functions.funcs),
            Value::Func(_) => Ok(builtins.type_functions.funcs),
            Value::Null => fail_at(Error::TypeFunctionOnNull, loc),
        }
    } else {
        match source {
            Value::Object(props) => Ok(*props),
            value => fail_at(Error::PropAccessOnNonObject { value: value.clone() }, loc),
        }
    }
}

/// Evaluates `source.name`, or the type property `name` of `source`.
pub fn eval_prop<'a>(
    context: &EvaluationContext<'a>,
    m: &mut Machine<'a>,
    scopes: &ScopeStack,
    source: &'a Expr,
    name: &String,
    type_prop: bool,
    loc: Location,
) -> (r: Result<SourcedValue>)
    requires
        ready(*context.builtins, old(m)@, scopes@),
    ensures
        (final(m)@, rview(r)) == eval_prop_spec(
            *context.builtins,
            old(m)@,
            scopes@,
            *source,
            name@,
            type_prop,
            loc,
        ),
        ready(*context.builtins, final(m)@, scopes@),
        old(m)@.grows_to(final(m)@),
        old(m)@.keeps_names(final(m)@, None),
        r matches Ok(v) ==> final(m)@.sval_ok(v@),
        r matches Err(e) ==> placed(e@),
    decreases old(m)@.fuel, 20nat, 0nat,
{
    proof {
        reveal(eval_prop_spec);
        reveal(eval_expr_spec);
    }
    let source_val = in_context(eval_expr(context, m, scopes, source), Context::EvalPropFailed)?;
    let ns = namespace(context.builtins, &source_val.v, type_prop, loc)?;
    match m.object_get(ns, name) {
        Some(value) => {
            proof {
                assert(m@.props_ok(m@.objects[ns as int]));
                lemma_lookup_ok(m@, m@.objects[ns as int], name@);
            }
            Ok(new_val_ref_with_source(value.v, source_val.v))
        },
        None => {
            if type_prop {
                fail_at(Error::TypeFunctionNotFound { value: source_val.v, name: name.clone() }, loc)
            } else {
                fail_at(Error::PropNotFound { name: name.clone() }, loc)
            }
        },
    }
}

} // verus!
