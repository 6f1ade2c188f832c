//! `if`, `while` and `for`.

use vstd::prelude::*;

use crate::ast::Block;
use crate::ast::Branch;
use crate::ast::Expr;
use crate::eval::Escape;
use crate::eval::EvaluationContext;
use crate::eval::Target;
use crate::eval::error::Context;
use crate::eval::error::Result;
use crate::eval::error::in_context;
use crate::eval::error::rview;
use crate::eval::machine::Machine;
use crate::eval::message::placed;
use crate::eval::ops::pair_views;
use crate::eval::scope::ScopeStack;
use crate::eval::semantics::TargetView;
use crate::eval::semantics::eval_expr_to_bool_spec;
use crate::eval::semantics::eval_for_spec;
use crate::eval::semantics::eval_if_spec;
use crate::eval::semantics::eval_stmts_in_new_scope_spec;
use crate::eval::semantics::eval_stmts_spec;
use crate::eval::semantics::eval_while_spec;
use crate::eval::semantics::ready;
use crate::eval::state::lemma_grows_transitive;
use crate::eval::stmts::eval_stmts;
use crate::eval::stmts::eval_stmts_in_new_scope;
use crate::eval::target_views;
use crate::eval::typed::eval_expr_to_bool;
use crate::eval::value::SourcedValue;
use crate::eval::value::Val;
use crate::eval::value::new_list;
use crate::eval::value::svals;
use crate::eval::value::unsourced;

verus! {

/// Runs an `if`.
pub fn eval_if<'a>(
    context: &EvaluationContext<'a>,
    m: &mut Machine<'a>,
    scopes: &ScopeStack,
    branches: &'a Vec<Branch>,
    else_stmts: &'a Option<Block>,
) -> (r: Result<Escape>)
    requires
        ready(*context.builtins, old(m)@, scopes@),
    ensures
        (final(m)@, rview(r)) == eval_if_spec(
            *context.builtins,
            old(m)@,
            scopes@,
            branches@,
            0,
            *else_stmts,
        ),
        ready(*context.builtins, final(m)@, scopes@),
        old(m)@.grows_to(final(m)@),
        old(m)@.keeps_names(final(m)@, None),
        r matches Ok(escape) ==> escape.ok(final(m)@),
        r matches Err(e) ==> placed(e@),
    decreases old(m)@.fuel, 8nat, 0nat,
{
    proof {
        reveal(eval_if_spec);
        reveal(eval_expr_to_bool_spec);
        reveal(eval_stmts_in_new_scope_spec);
    }
    let mut i: usize = 0;
    while i < branches.len()
        invariant
            i <= branches.len(),
            ready(*context.builtins, m@, scopes@),
            old(m)@.grows_to(m@),
            old(m)@.keeps_names(m@, None),
            eval_if_spec(*context.builtins, old(m)@, scopes@, branches@, 0, *else_stmts)
                == eval_if_spec(
                *context.builtins,
                m@,
                scopes@,
                branches@,
                i as int,
                *else_stmts,
            ),
        decreases branches.len() - i,
    {
        proof {
            reveal(eval_if_spec);
            reveal(eval_expr_to_bool_spec);
            reveal(eval_stmts_in_new_scope_spec);
        }
        let ghost before = m@;
        let branch = &branches[i];
        let rb = eval_expr_to_bool(context, m, scopes, "condition", &branch.cond);
        let ghost st1 = m@;
        proof {
            lemma_grows_transitive(old(m)@, before, st1);
        }
        let b = in_context(rb, Context::EvalIfConditionFailed)?;
        if b {
            let r = eval_stmts_in_new_scope(context, m, scopes, &branch.stmts);
            proof {
                lemma_grows_transitive(old(m)@, st1, m@);
            }
            return in_context(r, Context::EvalIfStatementsFailed);
        }
        i = i + 1;
    }
    if let Some(stmts) = else_stmts {
        let ghost st1 = m@;
        let r = eval_stmts_in_new_scope(context, m, scopes, stmts);
        proof {
            lemma_grows_transitive(old(m)@, st1, m@);
        }
        return in_context(r, Context::EvalElseStatementsFailed);
    }
    Ok(Escape::Nothing)
}

/// Runs a `while`.
pub fn eval_while<'a>(
    context: &EvaluationContext<'a>,
    m: &mut Machine<'a>,
    scopes: &ScopeStack,
    cond: &'a Expr,
    stmts: &'a Block,
) -> (r: Result<Escape>)
    requires
        ready(*context.builtins, old(m)@, scopes@),
    ensures
        (final(m)@, rview(r)) == eval_while_spec(
            *context.builtins,
            old(m)@,
            scopes@,
            *cond,
            stmts@,
        ),
        ready(*context.builtins, final(m)@, scopes@),
        old(m)@.grows_to(final(m)@),
        old(m)@.keeps_names(final(m)@, None),
        r matches Ok(escape) ==> escape.ok(final(m)@),
        r matches Err(e) ==> placed(e@),
    decreases old(m)@.fuel, 8nat, 0nat,
{
    proof {
        reveal(eval_while_spec);
        reveal(eval_expr_to_bool_spec);
        reveal(eval_stmts_in_new_scope_spec);
    }
    loop
        invariant
            ready(*context.builtins, m@, scopes@),
            old(m)@.grows_to(m@),
            old(m)@.keeps_names(m@, None),
            eval_while_spec(*context.builtins, old(m)@, scopes@, *cond, stmts@) == eval_while_spec(
                *context.builtins,
                m@,
                scopes@,
                *cond,
                stmts@,
            ),
        decreases m@.fuel,
    {
        proof {
            reveal(eval_while_spec);
            reveal(eval_expr_to_bool_spec);
            reveal(eval_stmts_in_new_scope_spec);
        }
        let ghost before = m@;
        let rb = eval_expr_to_bool(context, m, scopes, "condition", cond);
        let ghost st1 = m@;
        proof {
            lemma_grows_transitive(old(m)@, before, st1);
        }
        let b = in_context(rb, Context::EvalWhileConditionFailed)?;
        if !b {
            return Ok(Escape::Nothing);
        }
        let r = eval_stmts_in_new_scope(context, m, scopes, stmts);
        proof {
            lemma_grows_transitive(old(m)@, st1, m@);
        }
        let escape = in_context(r, Context::EvalWhileStatementsFailed)?;
        match escape {
            Escape::Nothing => {},
            Escape::Break { .. } => {
                return Ok(Escape::Nothing);
            },
            Escape::Continue { .. } => {},
            Escape::Return { .. } => {
                return Ok(escape);
            },
        }
    }
}

/// Runs the body of a `for` once for each pair of `pairs`.
pub fn eval_for<'a>(
    context: &EvaluationContext<'a>,
    m: &mut Machine<'a>,
    scopes: &ScopeStack,
    lhs: &'a Expr,
    pairs: Vec<(SourcedValue, SourcedValue)>,
    stmts: &'a Block,
) -> (r: Result<Escape>)
    requires
        ready(*context.builtins, old(m)@, scopes@),
        forall|i: int|
            0 <= i < pairs.len() ==> old(m)@.sval_ok((#[trigger] pairs[i]).0@) && old(m)@.sval_ok(
                pairs[i].1@,
            ),
    ensures
        (final(m)@, rview(r)) == eval_for_spec(
            *context.builtins,
            old(m)@,
            scopes@,
            *lhs,
            pair_views(pairs@),
            0,
            stmts@,
        ),
        ready(*context.builtins, final(m)@, scopes@),
        old(m)@.grows_to(final(m)@),
        old(m)@.keeps_names(final(m)@, None),
        r matches Ok(escape) ==> escape.ok(final(m)@),
        r matches Err(e) ==> placed(e@),
    decreases old(m)@.fuel, 8nat, 0nat,
{
    proof {
        reveal(eval_for_spec);
        reveal(eval_stmts_spec);
    }
    let ghost all = pair_views(pairs@);
    let mut i: usize = 0;
    while i < pairs.len()
        invariant
            i <= pairs.len(),
            all == pair_views(pairs@),
            ready(*context.builtins, m@, scopes@),
            old(m)@.grows_to(m@),
            old(m)@.keeps_names(m@, None),
            forall|k: int|
                0 <= k < pairs.len() ==> m@.sval_ok((#[trigger] pairs[k]).0@) && m@.sval_ok(
                    pairs[k].1@,
                ),
            eval_for_spec(*context.builtins, old(m)@, scopes@, *lhs, all, 0, stmts@)
                == eval_for_spec(*context.builtins, m@, scopes@, *lhs, all, i as int, stmts@),
        decreases pairs.len() - i,
    {
        proof {
            reveal(eval_for_spec);
            reveal(eval_stmts_spec);
        }
        let ghost before = m@;
        let mut items: Vec<SourcedValue> = Vec::new();
        items.push(pairs[i].0.clone());
        items.push(pairs[i].1.clone());
        proof {
            assert(svals(items@) =~= seq![all[i as int].0, all[i as int].1]);
            assert(m@.sval_ok(pairs[i as int].0@) && m@.sval_ok(pairs[i as int].1@));
        }
        let pair = new_list(m, items);
        let ghost st1 = m@;
        let mut new_bindings: Vec<(Target<'a>, SourcedValue)> = Vec::new();
        new_bindings.push((Target::Pattern(&lhs.0, lhs.1), pair));
        proof {
            assert(target_views(new_bindings@) =~= seq![
                (TargetView::Pattern(lhs.0, lhs.1), unsourced(Val::List(before.lists.len() as usize))),
            ]);
        }
        let r = eval_stmts(context, m, scopes, new_bindings, stmts);
        proof {
            lemma_grows_transitive(before, st1, m@);
            lemma_grows_transitive(old(m)@, before, m@);
            assert forall|k: int| 0 <= k < pairs.len() implies m@.sval_ok(
                (#[trigger] pairs[k]).0@,
            ) && m@.sval_ok(pairs[k].1@) by {
                assert(before.sval_ok(pairs[k].0@) && before.sval_ok(pairs[k].1@));
            }
        }
        let escape = in_context(r, Context::EvalForStatementsFailed)?;
        match escape {
            Escape::Nothing => {},
            Escape::Break { .. } => {
                return Ok(Escape::Nothing);
            },
            Escape::Continue { .. } => {},
            Escape::Return { .. } => {
                return Ok(escape);
            },
        }
        i = i + 1;
    }
    Ok(Escape::Nothing)
}

} // verus!
