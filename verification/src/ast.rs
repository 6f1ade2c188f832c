//! The abstract syntax tree that the evaluator walks.
//!
//! Every expression is paired with the `(line, column)` at which it starts.
//! The tree is immutable once built: function values keep references into it
//! instead of copies.

use vstd::prelude::*;

verus! {

/// A whole script.
#[derive(Debug, PartialEq, Eq)]
pub enum Prog {
    Body { stmts: Block },
}

pub type Block = Vec<Stmt>;

/// A position in the source text: line, then column.
pub type Location = (usize, usize);

pub type Expr = (RawExpr, Location);

#[derive(Debug, PartialEq, Eq)]
#[allow(inconsistent_fields)]
pub enum Stmt {
    Block { block: Block },
    Expr { expr: Expr },
    Declare { lhs: Expr, rhs: Expr },
    Assign { lhs: Expr, rhs: Expr },
    OpAssign { lhs: Expr, op: BinaryOp, op_loc: Location, rhs: Expr },
    If { branches: Vec<Branch>, else_stmts: Option<Block> },
    While { cond: Expr, stmts: Block },
    For { lhs: Expr, iter: Expr, stmts: Block },
    Break { loc: Location },
    Continue { loc: Location },
    Func { name: (String, Location), args: Vec<Expr>, collect_args: bool, stmts: Block },
    Return { loc: Location, expr: Expr },
}

/// One `if` or `else if` arm.
#[derive(Debug, PartialEq, Eq)]
pub struct Branch {
    pub cond: Expr,
    pub stmts: Block,
}

#[derive(Debug, PartialEq, Eq)]
#[allow(inconsistent_fields)]
pub enum RawExpr {
    Null,
    Bool { b: bool },
    Int { n: i64 },
    /// A string literal. `interpolation_slots` is `Some` for an interpolated
    /// literal, and then lists the `${ .. }` slots of `s` from left to right.
    Str { s: String, interpolation_slots: Option<Vec<ParsedSlot>> },
    Var { name: String },
    BinaryOp { op: BinaryOp, op_loc: Location, lhs: Box<Expr>, rhs: Box<Expr> },
    List { items: Vec<ListItem>, collect: bool },
    Object { props: Vec<PropItem> },
    Index { expr: Box<Expr>, location: Box<Expr> },
    RangeIndex { expr: Box<Expr>, start: Option<Box<Expr>>, end: Option<Box<Expr>> },
    Range { start: Box<Expr>, end: Box<Expr> },
    Prop { expr: Box<Expr>, name: String, type_prop: bool },
    Func { args: Vec<Expr>, collect_args: bool, stmts: Block },
    Call { func: Box<Expr>, args: Vec<ListItem> },
}

/// One `${ .. }` slot of an interpolated string literal.
///
/// `start` and `end` are byte offsets into the literal: `start` is the offset
/// of the `$`, `end` is one past the closing `}`. `expr` is what the text
/// between the delimiters parsed to, or the parser's message if it did not
/// parse. A slot that did not parse is an error only when the literal is
/// evaluated.
#[derive(Debug, PartialEq, Eq)]
pub struct ParsedSlot {
    pub start: usize,
    pub end: usize,
    pub expr: Result<Box<Expr>, String>,
}

#[derive(Clone, Copy, Debug, PartialEq, Eq, Structural)]
pub enum BinaryOp {
    Sum,
    Sub,
    Mul,
    Div,
    Mod,
    And,
    Or,
    Eq,
    Ne,
    Gt,
    Gte,
    Lt,
    Lte,
    RefEq,
    RefNe,
}

#[derive(Debug, PartialEq, Eq)]
pub enum PropItem {
    Pair { name: Expr, value: Expr },
    Single { expr: Expr, is_spread: bool, collect: bool },
}

#[derive(Debug, PartialEq, Eq)]
pub struct ListItem {
    pub expr: Expr,
    pub is_spread: bool,
}

} // verus!
