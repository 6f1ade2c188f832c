//! The place of a statement in the source text, at which a statement fails
//! that has no step left to take.

use vstd::prelude::*;

use crate::ast::Location;
use crate::ast::Stmt;
use crate::eval::builtins::Builtins;
use crate::eval::error::Failure;
use crate::eval::machine::ScopeRef;
use crate::eval::scope::push_spec;
use crate::eval::semantics::EscapeView;
use crate::eval::semantics::bind_all_spec;
use crate::eval::semantics::eval_if_spec;
use crate::eval::semantics::eval_stmt_spec;
use crate::eval::semantics::eval_stmts_in_new_scope_spec;
use crate::eval::semantics::eval_stmts_spec;
use crate::eval::semantics::eval_stmts_with_scope_stack_spec;
use crate::eval::state::St;
use crate::eval::state::after;

verus! {

/// The place of `stmt`: the first place that is written in it. That is the
/// place of `break`, `continue` or `return`, of the name of a function, of
/// the expression of an expression statement, of the left side of a
/// declaration, an assignment or a `for`, of the condition of a `while` or
/// of the first branch of an `if`, and for a block the place of the first
/// statement in it that has one. A statement without a place is made of
/// empty blocks alone.
pub open spec fn stmt_place(stmt: Stmt) -> Option<Location>
    decreases stmt, 0nat,
{
    match stmt {
        Stmt::Block { block } => stmts_place(block@, 0),
        Stmt::Expr { expr } => Some(expr.1),
        Stmt::Declare { lhs, .. } => Some(lhs.1),
        Stmt::Assign { lhs, .. } => Some(lhs.1),
        Stmt::OpAssign { lhs, .. } => Some(lhs.1),
        Stmt::If { branches, else_stmts } => if branches.len() > 0 {
            Some(branches[0].cond.1)
        } else {
            match else_stmts {
                Some(block) => stmts_place(block@, 0),
                None => None,
            }
        },
        Stmt::While { cond, .. } => Some(cond.1),
        Stmt::For { lhs, .. } => Some(lhs.1),
        Stmt::Break { loc } => Some(loc),
        Stmt::Continue { loc } => Some(loc),
        Stmt::Func { name, .. } => Some(name.1),
        Stmt::Return { loc, .. } => Some(loc),
    }
}

/// The place of the first of `stmts` from `i` on that has one.
pub open spec fn stmts_place(stmts: Seq<Stmt>, i: int) -> Option<Location>
    decreases stmts, stmts.len() - i,
{
    if i < 0 || i >= stmts.len() {
        None
    } else {
        match stmt_place(stmts[i]) {
            Some(loc) => Some(loc),
            None => stmts_place(stmts, i + 1),
        }
    }
}

/// The place of `stmt`, if any is written in it.
pub fn place_of_stmt(stmt: &Stmt) -> (r: Option<Location>)
    ensures
        r == stmt_place(*stmt),
    decreases stmt,
{
    match stmt {
        Stmt::Block { block } => place_of_stmts(block),
        Stmt::Expr { expr } => Some(expr.1),
        Stmt::Declare { lhs, .. } => Some(lhs.1),
        Stmt::Assign { lhs, .. } => Some(lhs.1),
        Stmt::OpAssign { lhs, .. } => Some(lhs.1),
        Stmt::If { branches, else_stmts } => if branches.len() > 0 {
            Some(branches[0].cond.1)
        } else {
            match else_stmts {
                Some(block) => place_of_stmts(block),
                None => None,
            }
        },
        Stmt::While { cond, .. } => Some(cond.1),
        Stmt::For { lhs, .. } => Some(lhs.1),
        Stmt::Break { loc } => Some(*loc),
        Stmt::Continue { loc } => Some(*loc),
        Stmt::Func { name, .. } => Some(name.1),
        Stmt::Return { loc, .. } => Some(*loc),
    }
}

/// The place of the first of `stmts` that has one.
pub fn place_of_stmts(stmts: &Vec<Stmt>) -> (r: Option<Location>)
    ensures
        r == stmts_place(stmts@, 0),
    decreases stmts,
{
    let mut i: usize = 0;
    while i < stmts.len()
        invariant
            i <= stmts.len(),
            stmts_place(stmts@, 0) == stmts_place(stmts@, i as int),
        decreases stmts.len() - i,
    {
        match place_of_stmt(&stmts[i]) {
            Some(loc) => {
                return Some(loc);
            },
            None => {},
        }
        i = i + 1;
    }
    None
}

/// Whether `later` is `st` with some of its steps taken and nothing else
/// changed.
pub open spec fn only_steps_taken(st: St, later: St) -> bool {
    later.fuel <= st.fuel && later == st.with_fuel(later.fuel)
}

/// A statement in which no place is written does nothing: it ends without
/// an escape, and the machine is as it was but for the steps taken. This is
/// so however many steps are left, and is why such a statement, alone among
/// all, does not fail when none is left.
pub proof fn statements_without_a_place_do_nothing(
    b: Builtins,
    st: St,
    scopes: Seq<ScopeRef>,
    stmt: Stmt,
)
    requires
        stmt_place(stmt) is None,
    ensures
        ({
            let (st1, r) = eval_stmt_spec(b, st, scopes, stmt);
            r == Ok::<EscapeView, Failure>(EscapeView::Nothing) && only_steps_taken(st, st1)
        }),
    decreases stmt, 0nat,
{
    match stmt {
        Stmt::Block { block } => {
            reveal(eval_stmt_spec);
            reveal(eval_stmts_in_new_scope_spec);
            if st.fuel > 0 {
                lemma_block_without_a_place(b, st.tick(), scopes, block@);
            }
        },
        Stmt::If { branches, else_stmts } => {
            reveal(eval_stmt_spec);
            reveal(eval_if_spec);
            reveal(eval_stmts_in_new_scope_spec);
            assert(branches.len() == 0);
            if st.fuel > 0 {
                match else_stmts {
                    Some(block) => {
                        lemma_block_without_a_place(b, st.tick(), scopes, block@);
                    },
                    None => {},
                }
            }
        },
        _ => {
            assert(stmt_place(stmt) is Some);
        },
    }
}

/// Statements without a place, run in a new scope, do nothing.
proof fn lemma_block_without_a_place(b: Builtins, st: St, scopes: Seq<ScopeRef>, stmts: Seq<Stmt>)
    requires
        stmts_place(stmts, 0) is None,
    ensures
        ({
            let (st1, r) = eval_stmts_in_new_scope_spec(b, st, scopes, stmts);
            r == Ok::<EscapeView, Failure>(EscapeView::Nothing) && only_steps_taken(st, st1)
        }),
    decreases stmts, stmts.len() + 1,
{
    reveal(eval_stmts_in_new_scope_spec);
    reveal(eval_stmts_spec);
    reveal(bind_all_spec);
    reveal(eval_stmts_with_scope_stack_spec);
    let (s1, inner) = push_spec(st, scopes, seq![]);
    lemma_stmts_without_a_place(b, s1, inner, stmts, 0);
    let (s3, r3) = eval_stmts_with_scope_stack_spec(b, s1, inner, stmts, 0);
    let out = s3.released(st.scopes.len(), st.funcs.len());
    assert(out.scopes =~= st.scopes);
    assert(out == st.with_fuel(out.fuel));
}

/// Statements without a place, run one after the other, do nothing.
proof fn lemma_stmts_without_a_place(
    b: Builtins,
    st: St,
    scopes: Seq<ScopeRef>,
    stmts: Seq<Stmt>,
    i: int,
)
    requires
        0 <= i <= stmts.len(),
        stmts_place(stmts, i) is None,
    ensures
        ({
            let (st1, r) = eval_stmts_with_scope_stack_spec(b, st, scopes, stmts, i);
            r == Ok::<EscapeView, Failure>(EscapeView::Nothing) && only_steps_taken(st, st1)
        }),
    decreases stmts, stmts.len() - i,
{
    reveal(eval_stmts_with_scope_stack_spec);
    reveal(eval_stmt_spec);
    if i < stmts.len() {
        statements_without_a_place_do_nothing(b, st, scopes, stmts[i]);
        let (st1, r) = after(st, eval_stmt_spec(b, st, scopes, stmts[i]));
        lemma_stmts_without_a_place(b, st1, scopes, stmts, i + 1);
    }
}

} // verus!
