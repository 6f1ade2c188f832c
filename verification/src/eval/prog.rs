//! The program as a whole.

use vstd::prelude::*;


use crate::ast::Prog;
use crate::ast::RawExpr;
use crate::eval::Escape;
use crate::eval::EvaluationContext;
use crate::eval::Target;
use crate::eval::error::Context;
use crate::eval::error::Error;
use crate::eval::error::Result;
use crate::eval::error::fail_at;
use crate::eval::error::in_context;
use crate::eval::error::rview;
use crate::eval::global_views;
use crate::eval::machine::Machine;
use crate::eval::message::placed;
use crate::eval::scope::ScopeStack;
use crate::eval::semantics::TargetView;
use crate::eval::semantics::eval_prog_spec;
use crate::eval::semantics::eval_stmts_spec;
use crate::eval::semantics::global_targets;
use crate::eval::stmts::eval_stmts;
use crate::eval::target_views;
use crate::eval::value::SourcedValue;

verus! {

/// Runs the program: its statements, in a new scope within `scopes` in
/// which `global_bindings` are declared.
pub fn eval_prog<'a>(
    context: &EvaluationContext<'a>,
    m: &mut Machine<'a>,
    scopes: &ScopeStack,
    global_bindings: &'a Vec<(RawExpr, SourcedValue)>,
    prog: &'a Prog,
) -> (r: Result<()>)
    requires
        old(m)@.wf(),
        old(m)@.stack_ok(scopes@),
        context.builtins.ok(old(m)@),
        forall|i: int|
            0 <= i < global_bindings.len() ==> old(m)@.sval_ok((#[trigger] global_bindings[i]).1@),
    ensures
        (final(m)@, rview(r)) == eval_prog_spec(
            *context.builtins,
            old(m)@,
            scopes@,
            global_views(global_bindings@),
            *prog,
        ),
        final(m)@.wf(),
        old(m)@.grows_to(final(m)@),
        old(m)@.keeps_names(final(m)@, None),
        r matches Err(e) ==> placed(e@),
    decreases old(m)@.fuel, 10nat, 0nat,
{
    proof {
        reveal(eval_prog_spec);
        reveal(eval_stmts_spec);
    }
    let Prog::Body { stmts } = prog;
    let mut bindings: Vec<(Target<'a>, SourcedValue)> = Vec::new();
    let mut i: usize = 0;
    while i < global_bindings.len()
        invariant
            i <= global_bindings.len(),
            bindings.len() == i,
            forall|j: int|
                0 <= j < i ==> (#[trigger] bindings[j]).0@ == TargetView::Pattern(
                    global_bindings[j].0,
                    (0, 0),
                ) && bindings[j].1@ == global_bindings[j].1@,
        decreases global_bindings.len() - i,
    {
        proof {
            reveal(eval_prog_spec);
            reveal(eval_stmts_spec);
        }
        bindings.push((Target::Pattern(&global_bindings[i].0, (0, 0)), global_bindings[i].1.clone()));
        i = i + 1;
    }
    proof {
        assert(target_views(bindings@) =~= global_targets(global_views(global_bindings@)));
        assert forall|j: int| 0 <= j < target_views(bindings@).len() implies old(m)@.sval_ok(
            (#[trigger] target_views(bindings@)[j]).1,
        ) by {
            assert(old(m)@.sval_ok(global_bindings[j].1@));
        }
    }
    let v = in_context(eval_stmts(context, m, scopes, bindings, stmts), Context::EvalStmtsFailed)?;
    match v {
        Escape::Nothing => Ok(()),
        Escape::Break { loc } => fail_at(Error::BreakOutsideLoop, loc),
        Escape::Continue { loc } => fail_at(Error::ContinueOutsideLoop, loc),
        Escape::Return { loc, .. } => fail_at(Error::ReturnOutsideFunction, loc),
    }
}

} // verus!
