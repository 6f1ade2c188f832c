//! Sequences of statements, and the scopes they run in.

use vstd::prelude::*;

use crate::ast::Block;
use crate::ast::Location;
use crate::eval::Escape;
use crate::eval::EvaluationContext;
use crate::eval::Target;
use crate::eval::bind::BindType;
use crate::eval::bind::bind_name;
use crate::eval::error::Context;
use crate::eval::error::Result;
use crate::eval::error::in_context;
use crate::eval::error::rview;
use crate::eval::machine::Machine;
use crate::eval::message::placed;
use crate::eval::scope::ScopeStack;
use crate::eval::semantics::bind_all_spec;
use crate::eval::semantics::bind_spec;
use crate::eval::semantics::eval_stmt_spec;
use crate::eval::semantics::eval_stmts_in_new_scope_spec;
use crate::eval::semantics::eval_stmts_spec;
use crate::eval::semantics::eval_stmts_with_scope_stack_spec;
use crate::eval::semantics::ready;
use crate::eval::state::innermost;
use crate::eval::state::lemma_grows_transitive;
use crate::eval::state::lemma_released;
use crate::eval::stmt::eval_stmt;
use crate::eval::target_views;
use crate::eval::targets_ok;
use crate::eval::value::SourcedValue;

verus! {

/// Declares `bindings` in the innermost scope of `scopes`, in their order.
pub fn bind_all<'a>(
    context: &EvaluationContext<'a>,
    m: &mut Machine<'a>,
    scopes: &ScopeStack,
    bindings: Vec<(Target<'a>, SourcedValue)>,
) -> (r: Result<()>)
    requires
        ready(*context.builtins, old(m)@, scopes@),
        targets_ok(old(m)@, target_views(bindings@)),
    ensures
        (final(m)@, rview(r)) == bind_all_spec(
            *context.builtins,
            old(m)@,
            scopes@,
            target_views(bindings@),
            0,
        ),
        ready(*context.builtins, final(m)@, scopes@),
        old(m)@.grows_to(final(m)@),
        old(m)@.keeps_names(final(m)@, innermost(scopes@)),
        r matches Err(e) ==> placed(e@),
    decreases old(m)@.fuel, 5nat, 0nat,
{
    proof {
        reveal(bind_all_spec);
        reveal(bind_spec);
    }
    let ghost all = target_views(bindings@);
    let mut i: usize = 0;
    while i < bindings.len()
        invariant
            i <= bindings.len(),
            all == target_views(bindings@),
            ready(*context.builtins, m@, scopes@),
            old(m)@.grows_to(m@),
            old(m)@.keeps_names(m@, innermost(scopes@)),
            targets_ok(m@, all),
            bind_all_spec(*context.builtins, old(m)@, scopes@, all, 0) == bind_all_spec(
                *context.builtins,
                m@,
                scopes@,
                all,
                i as int,
            ),
        decreases bindings.len() - i,
    {
        proof {
            reveal(bind_all_spec);
            reveal(bind_spec);
        }
        let ghost before = m@;
        let rhs = bindings[i].1.clone();
        proof {
            assert(m@.sval_ok(all[i as int].1));
        }
        let r = match &bindings[i].0 {
            Target::Pattern(raw, loc) => crate::eval::bind::bind_raw(
                context,
                m,
                scopes,
                raw,
                *loc,
                rhs,
                BindType::Declaration,
            ),
            Target::Name(name, loc) => bind_name(
                m,
                scopes,
                name.as_str(),
                loc,
                rhs,
                BindType::Declaration,
            ),
        };
        proof {
            lemma_grows_transitive(old(m)@, before, m@);
            assert forall|j: int| 0 <= j < all.len() implies m@.sval_ok((#[trigger] all[j]).1) by {
                assert(before.sval_ok(all[j].1));
            }
        }
        in_context(r, Context::BindFailed)?;
        i = i + 1;
    }
    Ok(())
}

/// Runs `stmts` in a new scope within `scopes`, with `new_bindings` declared
/// in that scope first. No scope that was there before has a name more, or
/// another, after it.
pub fn eval_stmts<'a>(
    context: &EvaluationContext<'a>,
    m: &mut Machine<'a>,
    scopes: &ScopeStack,
    new_bindings: Vec<(Target<'a>, SourcedValue)>,
    stmts: &'a Block,
) -> (r: Result<Escape>)
    requires
        old(m)@.wf(),
        old(m)@.stack_ok(scopes@),
        context.builtins.ok(old(m)@),
        targets_ok(old(m)@, target_views(new_bindings@)),
    ensures
        (final(m)@, rview(r)) == eval_stmts_spec(
            *context.builtins,
            old(m)@,
            scopes@,
            target_views(new_bindings@),
            stmts@,
        ),
        final(m)@.wf(),
        old(m)@.grows_to(final(m)@),
        old(m)@.keeps_names(final(m)@, None),
        final(m)@.funcs.len() == old(m)@.funcs.len() ==> final(m)@.scopes.len() == old(m)@.scopes.len(),
        r matches Ok(escape) ==> escape.ok(final(m)@),
        r matches Err(e) ==> placed(e@),
    decreases old(m)@.fuel, 6nat, 0nat,
{
    proof {
        reveal(eval_stmts_spec);
        reveal(bind_all_spec);
        reveal(eval_stmts_with_scope_stack_spec);
    }
    let mark = m.mark();
    let new_scopes = scopes.new_from_push(m, Vec::new());
    let ghost st1 = m@;
    proof {
        assert(crate::eval::machine::bindings(Seq::<(String, (SourcedValue, Location))>::empty())
            =~= seq![]);
        assert forall|j: int| 0 <= j < target_views(new_bindings@).len() implies st1.sval_ok(
            (#[trigger] target_views(new_bindings@)[j]).1,
        ) by {
            assert(old(m)@.sval_ok(target_views(new_bindings@)[j].1));
        }
    }
    match bind_all(context, m, &new_scopes, new_bindings) {
        Ok(_) => {},
        Err(e) => {
            proof {
                lemma_grows_transitive(old(m)@, st1, m@);
                lemma_released(old(m)@, m@);
            }
            m.release(mark);
            return Err(e);
        },
    }
    let ghost st2 = m@;
    let r = in_context(
        eval_stmts_with_scope_stack(context, m, &new_scopes, stmts),
        Context::EvalStmtsWithScopeStackFailed,
    );
    proof {
        lemma_grows_transitive(old(m)@, st1, st2);
        lemma_grows_transitive(old(m)@, st2, m@);
        lemma_released(old(m)@, m@);
    }
    m.release(mark);
    r
}

/// Runs `stmts` in the scopes of `scopes`, one after the other, until one
/// escapes.
pub fn eval_stmts_with_scope_stack<'a>(
    context: &EvaluationContext<'a>,
    m: &mut Machine<'a>,
    scopes: &ScopeStack,
    stmts: &'a Block,
) -> (r: Result<Escape>)
    requires
        ready(*context.builtins, old(m)@, scopes@),
    ensures
        (final(m)@, rview(r)) == eval_stmts_with_scope_stack_spec(
            *context.builtins,
            old(m)@,
            scopes@,
            stmts@,
            0,
        ),
        ready(*context.builtins, final(m)@, scopes@),
        old(m)@.grows_to(final(m)@),
        old(m)@.keeps_names(final(m)@, innermost(scopes@)),
        r matches Ok(escape) ==> escape.ok(final(m)@),
        r matches Err(e) ==> placed(e@),
    decreases old(m)@.fuel, 5nat, 0nat,
{
    proof {
        reveal(eval_stmts_with_scope_stack_spec);
        reveal(eval_stmt_spec);
    }
    let mut i: usize = 0;
    while i < stmts.len()
        invariant
            i <= stmts.len(),
            ready(*context.builtins, m@, scopes@),
            old(m)@.grows_to(m@),
            old(m)@.keeps_names(m@, innermost(scopes@)),
            eval_stmts_with_scope_stack_spec(*context.builtins, old(m)@, scopes@, stmts@, 0)
                == eval_stmts_with_scope_stack_spec(
                *context.builtins,
                m@,
                scopes@,
                stmts@,
                i as int,
            ),
        decreases stmts.len() - i,
    {
        proof {
            reveal(eval_stmts_with_scope_stack_spec);
            reveal(eval_stmt_spec);
        }
        let ghost before = m@;
        let r = eval_stmt(context, m, scopes, &stmts[i]);
        proof {
            lemma_grows_transitive(old(m)@, before, m@);
        }
        let v = in_context(r, Context::EvalStmtFailed)?;
        match v {
            Escape::Nothing => {},
            _ => {
                return Ok(v);
            },
        }
        i = i + 1;
    }
    Ok(Escape::Nothing)
}

/// Runs `stmts` in a new scope within `outer_scopes`. What the statements
/// declare they declare in the new scope: no scope that was there before
/// has a name more, or another, after them.
pub fn eval_stmts_in_new_scope<'a>(
    context: &EvaluationContext<'a>,
    m: &mut Machine<'a>,
    outer_scopes: &ScopeStack,
    stmts: &'a Block,
) -> (r: Result<Escape>)
    requires
        old(m)@.wf(),
        old(m)@.stack_ok(outer_scopes@),
        context.builtins.ok(old(m)@),
    ensures
        (final(m)@, rview(r)) == eval_stmts_in_new_scope_spec(
            *context.builtins,
            old(m)@,
            outer_scopes@,
            stmts@,
        ),
        final(m)@.wf(),
        old(m)@.grows_to(final(m)@),
        old(m)@.keeps_names(final(m)@, None),
        final(m)@.funcs.len() == old(m)@.funcs.len() ==> final(m)@.scopes.len() == old(m)@.scopes.len(),
        r matches Ok(escape) ==> escape.ok(final(m)@),
        r matches Err(e) ==> placed(e@),
    decreases old(m)@.fuel, 7nat, 0nat,
{
    proof {
        reveal(eval_stmts_in_new_scope_spec);
        reveal(eval_stmts_spec);
    }
    let none: Vec<(Target<'a>, SourcedValue)> = Vec::new();
    assert(target_views(none@) =~= seq![]);
    eval_stmts(context, m, outer_scopes, none, stmts)
}

} // verus!
