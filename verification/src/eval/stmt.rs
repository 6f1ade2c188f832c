//! Statements.

use vstd::prelude::*;

use crate::ast::Block;
use crate::ast::Expr;
use crate::ast::Stmt;
use crate::eval::Escape;
use crate::eval::EvaluationContext;
use crate::eval::bind::BindType;
use crate::eval::bind::bind;
use crate::eval::bind::bind_name;
use crate::eval::bind::bind_next;
use crate::eval::error::Context;
use crate::eval::error::Error;
use crate::eval::error::Result;
use crate::eval::error::fail_at;
use crate::eval::error::in_context;
use crate::eval::error::rview;
use crate::eval::expr::eval_expr;
use crate::eval::flow::eval_for;
use crate::eval::flow::eval_if;
use crate::eval::flow::eval_while;
use crate::eval::machine::Machine;
use crate::eval::message::placed;
use crate::eval::ops::value_to_pairs;
use crate::eval::place::place_of_stmt;
use crate::eval::scope::ScopeStack;
use crate::eval::semantics::bind_next_spec;
use crate::eval::semantics::bind_spec;
use crate::eval::semantics::eval_expr_spec;
use crate::eval::semantics::eval_for_spec;
use crate::eval::semantics::eval_if_spec;
use crate::eval::semantics::eval_stmt_spec;
use crate::eval::semantics::eval_stmts_in_new_scope_spec;
use crate::eval::semantics::eval_while_spec;
use crate::eval::semantics::ready;
use crate::eval::state::innermost;
use crate::eval::state::lemma_grows_transitive;
use crate::eval::stmts::eval_stmts_in_new_scope;
use crate::eval::value::new_func;

verus! {

/// `r` as the outcome of a statement that does not escape.
pub(crate) fn finish<T>(r: Result<T>, failed: Context) -> (out: Result<Escape>)
    ensures
        match r {
            Ok(_) => out == Ok::<Escape, Error>(Escape::Nothing),
            Err(e) => out == Err::<Escape, Error>(
                Error::Context { context: failed, source: Box::new(e) },
            ),
        },
        r matches Err(e) ==> (out matches Err(e2) && e2@ == e@.within(failed) && (placed(e@)
            ==> placed(e2@))),
{
    match r {
        Ok(_) => Ok(Escape::Nothing),
        Err(e) => Err(Error::Context { context: failed, source: Box::new(e) }),
    }
}

/// Runs the statement `stmt`. A statement declares names in the innermost
/// of `scopes` alone.
pub fn eval_stmt<'a>(
    context: &EvaluationContext<'a>,
    m: &mut Machine<'a>,
    scopes: &ScopeStack,
    stmt: &'a Stmt,
) -> (r: Result<Escape>)
    requires
        ready(*context.builtins, old(m)@, scopes@),
    ensures
        (final(m)@, rview(r)) == eval_stmt_spec(*context.builtins, old(m)@, scopes@, *stmt),
        ready(*context.builtins, final(m)@, scopes@),
        old(m)@.grows_to(final(m)@),
        old(m)@.keeps_names(final(m)@, innermost(scopes@)),
        r matches Ok(escape) ==> escape.ok(final(m)@),
        r matches Err(e) ==> placed(e@),
    decreases old(m)@.fuel, 0nat, 0nat,
{
    proof {
        reveal(eval_stmt_spec);
        reveal(eval_stmts_in_new_scope_spec);
        reveal(eval_expr_spec);
        reveal(bind_spec);
        reveal(bind_next_spec);
        reveal(eval_if_spec);
        reveal(eval_while_spec);
        reveal(eval_for_spec);
    }
    if !m.tick() {
        return match place_of_stmt(stmt) {
            Some(loc) => fail_at(Error::StepLimitReached, loc),
            None => Ok(Escape::Nothing),
        };
    }
    let ghost st0 = m@;
    match stmt {
        Stmt::Block { block } => {
            let r = eval_stmts_in_new_scope(context, m, scopes, block);
            proof {
                lemma_grows_transitive(old(m)@, st0, m@);
            }
            in_context(r, Context::EvalBlockFailed)
        },
        Stmt::Expr { expr } => {
            let r = eval_expr(context, m, scopes, expr);
            proof {
                lemma_grows_transitive(old(m)@, st0, m@);
            }
            finish(r, Context::EvalExprFailed)
        },
        Stmt::Declare { lhs, rhs } => {
            let r = eval_expr(context, m, scopes, rhs);
            let ghost st1 = m@;
            proof {
                lemma_grows_transitive(old(m)@, st0, st1);
            }
            let v = in_context(r, Context::EvalDeclarationRhsFailed)?;
            let r2 = bind(context, m, scopes, lhs, v, BindType::Declaration);
            proof {
                lemma_grows_transitive(old(m)@, st1, m@);
            }
            finish(r2, Context::DeclarationBindFailed)
        },
        Stmt::Assign { lhs, rhs } => {
            let r = eval_expr(context, m, scopes, rhs);
            let ghost st1 = m@;
            proof {
                lemma_grows_transitive(old(m)@, st0, st1);
            }
            let v = in_context(r, Context::EvalAssignmentRhsFailed)?;
            let r2 = bind(context, m, scopes, lhs, v, BindType::Assignment);
            proof {
                lemma_grows_transitive(old(m)@, st1, m@);
            }
            finish(r2, Context::AssignmentBindFailed)
        },
        Stmt::OpAssign { lhs, op, op_loc, rhs } => {
            let r = eval_expr(context, m, scopes, rhs);
            let ghost st1 = m@;
            proof {
                lemma_grows_transitive(old(m)@, st0, st1);
            }
            let rhs_val = in_context(r, Context::EvalBinOpRhsFailed)?;
            let mut names: Vec<String> = Vec::new();
            assert(crate::eval::bind::names_view(names@) =~= seq![]);
            let r2 = bind_next(
                context,
                m,
                scopes,
                &mut names,
                &lhs.0,
                lhs.1,
                rhs_val,
                Some((*op, *op_loc)),
                BindType::Assignment,
            );
            proof {
                lemma_grows_transitive(old(m)@, st1, m@);
            }
            finish(r2, Context::OpAssignmentBindFailed)
        },
        Stmt::If { branches, else_stmts } => {
            let r = eval_if(context, m, scopes, branches, else_stmts);
            proof {
                lemma_grows_transitive(old(m)@, st0, m@);
            }
            r
        },
        Stmt::While { cond, stmts } => {
            let r = eval_while(context, m, scopes, cond, stmts);
            proof {
                lemma_grows_transitive(old(m)@, st0, m@);
            }
            r
        },
        Stmt::For { lhs, iter, stmts } => {
            let r = eval_expr(context, m, scopes, iter);
            let ghost st1 = m@;
            proof {
                lemma_grows_transitive(old(m)@, st0, st1);
            }
            let iter_val = in_context(r, Context::EvalForIterFailed)?;
            let pairs = match value_to_pairs(m, &iter_val.v) {
                Ok(pairs) => pairs,
                Err(e) => {
                    return in_context(fail_at(e, iter.1), Context::ConvertForIterToPairsFailed);
                },
            };
            let r2 = eval_for(context, m, scopes, lhs, pairs, stmts);
            proof {
                lemma_grows_transitive(old(m)@, st1, m@);
            }
            r2
        },
        Stmt::Break { loc } => Ok(Escape::Break { loc: *loc }),
        Stmt::Continue { loc } => Ok(Escape::Continue { loc: *loc }),
        Stmt::Func { name, args, collect_args, stmts } => {
            let closure = scopes.clone();
            let func = new_func(m, Some(name.0.clone()), args, *collect_args, stmts, closure);
            let ghost st1 = m@;
            proof {
                lemma_grows_transitive(old(m)@, st0, st1);
            }
            let r = bind_name(m, scopes, name.0.as_str(), &name.1, func, BindType::Declaration);
            proof {
                lemma_grows_transitive(old(m)@, st1, m@);
            }
            finish(r, Context::DeclareFunctionFailed)
        },
        Stmt::Return { loc, expr } => {
            let r = eval_expr(context, m, scopes, expr);
            proof {
                lemma_grows_transitive(old(m)@, st0, m@);
            }
            let v = in_context(r, Context::EvalReturnExprFailed)?;
            Ok(Escape::Return { value: v, loc: *loc })
        },
    }
}

} // verus!
