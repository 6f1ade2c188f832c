//! The evaluator: values, scopes, binding, and the walk over the tree.

pub mod access;
pub mod bind;
pub mod builtins;
pub mod call;
pub mod error;
pub mod expr;
pub mod flow;
pub mod interp;
pub mod machine;
pub mod message;
pub mod object;
pub mod ops;
pub mod order;
pub mod place;
pub mod prog;
pub mod scope;
pub mod semantics;
pub mod state;
pub mod steps;
pub mod stmt;
pub mod stmts;
pub mod typed;
pub mod value;

use vstd::prelude::*;

use crate::ast::Location;
use crate::ast::RawExpr;
use crate::eval::builtins::Builtins;
use crate::eval::semantics::EscapeView;
use crate::eval::semantics::TargetView;
use crate::eval::state::St;
use crate::eval::value::SVal;
use crate::eval::value::SourcedValue;

pub use self::access::eval_index;
pub use self::access::eval_prop;
pub use self::access::eval_range;
pub use self::access::eval_range_index;
pub use self::access::namespace;
pub use self::call::call_func;
pub use self::call::eval_call;
pub use self::expr::eval_binary_op;
pub use self::expr::eval_expr;
pub use self::expr::eval_list;
pub use self::expr::eval_list_items;
pub use self::flow::eval_for;
pub use self::flow::eval_if;
pub use self::flow::eval_while;
pub use self::interp::interpolate_string;
pub use self::object::eval_object;
pub use self::prog::eval_prog;
pub use self::stmt::eval_stmt;
pub use self::stmts::bind_all;
pub use self::stmts::eval_stmts;
pub use self::stmts::eval_stmts_in_new_scope;
pub use self::stmts::eval_stmts_with_scope_stack;
pub use self::typed::eval_bound;
pub use self::typed::eval_expr_to_bool;
pub use self::typed::eval_expr_to_i64;
pub use self::typed::eval_expr_to_index;
pub use self::typed::eval_expr_to_str;
pub use self::typed::eval_read_index;
pub use self::typed::eval_read_key;

verus! {

/// What stays the same throughout a run.
pub struct EvaluationContext<'a> {
    pub builtins: &'a Builtins,
    /// The directory of the script that runs.
    pub cur_script_dir: String,
    /// What the program's scope declares before the program starts.
    pub global_bindings: &'a Vec<(RawExpr, SourcedValue)>,
}

/// How a statement ended, as far as the statements after it are concerned.
#[derive(Debug, PartialEq, Eq)]
pub enum Escape {
    /// The statement ran to its end.
    Nothing,
    Break { loc: Location },
    Continue { loc: Location },
    Return { value: SourcedValue, loc: Location },
}

impl View for Escape {
    type V = EscapeView;

    open spec fn view(&self) -> EscapeView {
        match *self {
            Escape::Nothing => EscapeView::Nothing,
            Escape::Break { loc } => EscapeView::Break { loc },
            Escape::Continue { loc } => EscapeView::Continue { loc },
            Escape::Return { value, loc } => EscapeView::Return { value: value@, loc },
        }
    }
}

impl Escape {
    /// Whether the value that this escape carries, if it carries one, is
    /// good in `st`.
    pub open spec fn ok(self, st: St) -> bool {
        self matches Escape::Return { value, .. } ==> st.sval_ok(value@)
    }
}

/// What a value is bound to when a scope is entered: a pattern of the
/// program, or a plain name.
pub enum Target<'a> {
    Pattern(&'a RawExpr, Location),
    Name(String, Location),
}

impl<'a> View for Target<'a> {
    type V = TargetView;

    open spec fn view(&self) -> TargetView {
        match *self {
            Target::Pattern(raw, loc) => TargetView::Pattern(*raw, loc),
            Target::Name(name, loc) => TargetView::Name(name@, loc),
        }
    }
}

/// The views of a sequence of bindings.
pub open spec fn target_views(bs: Seq<(Target, SourcedValue)>) -> Seq<(TargetView, SVal)> {
    Seq::new(bs.len(), |i: int| (bs[i].0@, bs[i].1@))
}

/// The views of the global bindings.
pub open spec fn global_views(gs: Seq<(RawExpr, SourcedValue)>) -> Seq<(RawExpr, SVal)> {
    Seq::new(gs.len(), |i: int| (gs[i].0, gs[i].1@))
}

/// Whether every value of `bs` is good in `st`.
pub open spec fn targets_ok(st: St, bs: Seq<(TargetView, SVal)>) -> bool {
    forall|i: int| 0 <= i < bs.len() ==> st.sval_ok((#[trigger] bs[i]).1)
}

} // verus!
