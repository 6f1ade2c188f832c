//! Calls.

use vstd::prelude::*;

use crate::ast::Expr;
use crate::ast::ListItem;
use crate::ast::Location;
use crate::builtins::type_functions::call_builtin;
use crate::eval::Escape;
use crate::eval::EvaluationContext;
use crate::eval::Target;
use crate::eval::error::Context;
use crate::eval::error::Error;
use crate::eval::error::Result;
use crate::eval::error::fail_at;
use crate::eval::error::in_context;
use crate::eval::error::rview;
use crate::eval::expr::eval_expr;
use crate::eval::expr::eval_list_items;
use crate::eval::machine::Machine;
use crate::eval::message::placed;
use crate::eval::scope::ScopeStack;
use crate::eval::semantics::TargetView;
use crate::eval::semantics::call_bindings_spec;
use crate::eval::semantics::call_func_spec;
use crate::eval::semantics::eval_call_spec;
use crate::eval::semantics::eval_expr_spec;
use crate::eval::semantics::eval_list_items_spec;
use crate::eval::semantics::eval_stmts_spec;
use crate::eval::semantics::ready;
use crate::eval::state::lemma_grows_svals_ok;
use crate::eval::state::lemma_grows_transitive;
use crate::eval::stmts::eval_stmts;
use crate::eval::target_views;
use crate::eval::value::FuncRef;
use crate::eval::value::SourcedValue;
use crate::eval::value::Val;
use crate::eval::value::Value;
use crate::eval::value::new_list;
use crate::eval::value::new_null;
use crate::eval::value::new_val_ref_with_no_source;
use crate::eval::value::svals;
use crate::eval::value::unsourced;

verus! {

/// A copy of an optional name.
fn clone_name(name: &Option<String>) -> (r: Option<String>)
    ensures
        crate::eval::error::opt_text(r) == crate::eval::error::opt_text(*name),
{
    match name {
        Some(n) => Some(n.clone()),
        None => None,
    }
}

/// Evaluates the call `func(args)`.
pub fn eval_call<'a>(
    context: &EvaluationContext<'a>,
    m: &mut Machine<'a>,
    scopes: &ScopeStack,
    func: &'a Expr,
    args: &'a Vec<ListItem>,
    loc: Location,
) -> (r: Result<SourcedValue>)
    requires
        ready(*context.builtins, old(m)@, scopes@),
    ensures
        (final(m)@, rview(r)) == eval_call_spec(
            *context.builtins,
            old(m)@,
            scopes@,
            *func,
            args@,
            loc,
        ),
        ready(*context.builtins, final(m)@, scopes@),
        old(m)@.grows_to(final(m)@),
        old(m)@.keeps_names(final(m)@, None),
        r matches Ok(v) ==> final(m)@.sval_ok(v@),
        r matches Err(e) ==> placed(e@),
    decreases old(m)@.fuel, 20nat, 0nat,
{
    proof {
        reveal(eval_call_spec);
        reveal(call_func_spec);
        reveal(eval_list_items_spec);
        reveal(eval_expr_spec);
        reveal(eval_stmts_spec);
    }
    let arg_vals = match eval_list_items(context, m, scopes, args) {
        Ok(vals) => vals,
        Err(e) => {
            return in_context(Err(e), Context::EvalCallArgsFailed);
        },
    };
    let ghost st1 = m@;
    let func_val = in_context(eval_expr(context, m, scopes, func), Context::EvalCallFuncFailed)?;
    let ghost st2 = m@;
    proof {
        lemma_grows_transitive(old(m)@, st1, st2);
        lemma_grows_svals_ok(st1, st2, svals(arg_vals@));
    }
    let SourcedValue { v, source } = func_val;
    match v {
        Value::BuiltinFunc { name, f } => {
            let this = match source {
                Some(s) => Some(new_val_ref_with_no_source(s)),
                None => None,
            };
            let r = call_builtin(m, f, this, arg_vals);
            proof {
                lemma_grows_transitive(old(m)@, st2, m@);
            }
            match r {
                Ok(v) => Ok(new_val_ref_with_no_source(v.v)),
                Err(e) => Err(
                    Error::EvalBuiltinFuncCallFailed {
                        source: Box::new(e),
                        func_name: Some(name),
                        call_loc: loc,
                    },
                ),
            }
        },
        Value::Func(fr) => {
            let r = call_func(context, m, fr, arg_vals, source, loc);
            proof {
                lemma_grows_transitive(old(m)@, st2, m@);
            }
            r
        },
        other => fail_at(Error::CannotCallNonFunc { v: other }, loc),
    }
}

/// Calls the user function `fr` with the arguments `arg_vals` and the
/// receiver `source`. The parameters, and what the body declares, are
/// declared in a scope of the call: no scope that was there before has a
/// name more, or another, after it.
pub fn call_func<'a>(
    context: &EvaluationContext<'a>,
    m: &mut Machine<'a>,
    fr: FuncRef,
    arg_vals: Vec<SourcedValue>,
    source: Option<Value>,
    loc: Location,
) -> (r: Result<SourcedValue>)
    requires
        old(m)@.wf(),
        context.builtins.ok(old(m)@),
        fr < old(m)@.funcs.len(),
        old(m)@.svals_ok(svals(arg_vals@)),
        source matches Some(s) ==> old(m)@.val_ok(s@),
    ensures
        (final(m)@, rview(r)) == call_func_spec(
            *context.builtins,
            old(m)@,
            fr,
            svals(arg_vals@),
            crate::eval::value::opt_val(source),
            loc,
        ),
        final(m)@.wf(),
        old(m)@.grows_to(final(m)@),
        old(m)@.keeps_names(final(m)@, None),
        final(m)@.funcs.len() == old(m)@.funcs.len() ==> final(m)@.scopes.len() == old(m)@.scopes.len(),
        r matches Ok(v) ==> final(m)@.sval_ok(v@),
        r matches Err(e) ==> placed(e@),
    decreases old(m)@.fuel, 19nat, 0nat,
{
    proof {
        reveal(call_func_spec);
        reveal(eval_stmts_spec);
    }
    let f = m.func(fr);
    let ghost fv = f@;
    let func_name = clone_name(&f.name);
    let params = f.args;
    let collect_args = f.collect_args;
    let stmts = f.stmts;
    let closure = f.closure.clone();
    let num_params = params.len();
    let got = arg_vals.len();
    let minimum = if num_params > 0 {
        num_params - 1
    } else {
        0
    };
    if collect_args {
        if minimum > got {
            return fail_at(Error::TooFewArgs { minimum, got }, loc);
        }
    } else if num_params != got {
        return fail_at(Error::ArgNumMismatch { need: num_params, got }, loc);
    }
    let ghost rest_ref = old(m)@.lists.len() as usize;
    let rest = if collect_args && num_params > 0 {
        let mut tail: Vec<SourcedValue> = Vec::new();
        let mut k: usize = minimum;
        while k < got
            invariant
                minimum <= k <= got,
                got == arg_vals.len(),
                tail.len() == k - minimum,
                forall|j: int|
                    0 <= j < tail.len() ==> (#[trigger] tail[j])@ == arg_vals[minimum
                        + j]@,
            decreases got - k,
        {
            proof {
                reveal(eval_call_spec);
                reveal(eval_list_items_spec);
                reveal(eval_expr_spec);
                reveal(eval_stmts_spec);
            }
            tail.push(arg_vals[k].clone());
            k = k + 1;
        }
        proof {
            assert(svals(tail@) =~= svals(arg_vals@).subrange(
                minimum as int,
                got as int,
            ));
            assert forall|j: int| 0 <= j < svals(tail@).len() implies m@.sval_ok(
                #[trigger] svals(tail@)[j],
            ) by {
                assert(m@.sval_ok(svals(arg_vals@)[minimum + j]));
            }
        }
        Some(new_list(m, tail))
    } else {
        None
    };
    let ghost st3 = m@;
    proof {
        
        lemma_grows_svals_ok(old(m)@, st3, svals(arg_vals@));
    }
    let mut bindings: Vec<(Target<'a>, SourcedValue)> = Vec::new();
    let mut i: usize = 0;
    while i < num_params
        invariant
            i <= num_params,
            num_params == params.len(),
            got == arg_vals.len(),
            collect_args ==> minimum <= got,
            !collect_args ==> num_params == got,
            minimum == (if num_params > 0 {
                num_params - 1
            } else {
                0
            }),
            (collect_args && num_params > 0) ==> (rest matches Some(l) && l@ == unsourced(
                Val::List(rest_ref),
            )),
            bindings.len() == i,
            forall|j: int|
                0 <= j < i ==> (#[trigger] bindings[j]).0@ == TargetView::Pattern(
                    params[j].0,
                    params[j].1,
                ) && bindings[j].1@ == (if collect_args && j == num_params - 1 {
                    unsourced(Val::List(rest_ref))
                } else {
                    arg_vals[j]@
                }),
        decreases num_params - i,
    {
        proof {
            reveal(eval_call_spec);
            reveal(eval_list_items_spec);
            reveal(eval_expr_spec);
            reveal(eval_stmts_spec);
        }
        let arg_val = if collect_args && i == num_params - 1 {
            match &rest {
                Some(l) => l.clone(),
                None => new_null(),
            }
        } else {
            arg_vals[i].clone()
        };
        bindings.push((Target::Pattern(&params[i].0, params[i].1), arg_val));
        i = i + 1;
    }
    let ghost this_view = crate::eval::value::opt_val(source);
    if let Some(this) = source {
        bindings.push(
            (
                Target::Name(String::from_str("this"), (0, 0)),
                new_val_ref_with_no_source(this),
            ),
        );
    }
    proof {
        assert(target_views(bindings@) =~= call_bindings_spec(
            fv,
            svals(arg_vals@),
            rest_ref,
            this_view,
        ));
        assert(old(m)@.stack_ok(fv.closure));
        assert forall|j: int| 0 <= j < target_views(bindings@).len() implies m@.sval_ok(
            (#[trigger] target_views(bindings@)[j]).1,
        ) by {
            if j < num_params {
                if !(collect_args && j == num_params - 1) {
                    assert(m@.sval_ok(svals(arg_vals@)[j]));
                }
            }
        }
    }
    let escape = match eval_stmts(context, m, &closure, bindings, stmts) {
        Ok(escape) => escape,
        Err(e) => {
            proof {
                lemma_grows_transitive(old(m)@, st3, m@);
            }
            return Err(
                Error::EvalFuncCallFailed {
                    source: Box::new(e),
                    func_name,
                    call_loc: loc,
                },
            );
        },
    };
    proof {
        lemma_grows_transitive(old(m)@, st3, m@);
    }
    match escape {
        Escape::Nothing => Ok(new_null()),
        Escape::Break { loc: at } => fail_at(Error::BreakOutsideLoop, at),
        Escape::Continue { loc: at } => fail_at(Error::ContinueOutsideLoop, at),
        Escape::Return { value, .. } => Ok(new_val_ref_with_no_source(value.v)),
    }
}

} // verus!
