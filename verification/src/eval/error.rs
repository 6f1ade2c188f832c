//! The ways in which evaluation fails.

use vstd::prelude::*;

use crate::ast::BinaryOp;
use crate::ast::Location;
use crate::eval::message::placed;
use crate::eval::value::Val;
use crate::eval::value::Value;

verus! {

pub type Result<T> = core::result::Result<T, Error>;

/// What the evaluator was doing when an error passed through it.
#[derive(Clone, Copy, Debug, PartialEq, Eq, Structural)]
pub enum Context {
    BindFailed,
    BindObjectCollectFailed,
    BindObjectSingleFailed,
    BindObjectPairFailed,
    BindListItemFailed,
    BindNextFailed,
    EvalProgFailed,
    EvalStmtsInNewScopeFailed,
    EvalStmtsWithScopeStackFailed,
    EvalStmtsFailed,
    EvalDeclarationRhsFailed,
    DeclarationBindFailed,
    EvalAssignmentRhsFailed,
    AssignmentBindFailed,
    OpAssignmentBindFailed,
    EvalIfConditionFailed,
    EvalIfStatementsFailed,
    EvalElseStatementsFailed,
    EvalWhileConditionFailed,
    EvalWhileStatementsFailed,
    EvalForIterFailed,
    ConvertForIterToPairsFailed,
    EvalForStatementsFailed,
    ValidateArgsFailed,
    DeclareFunctionFailed,
    EvalReturnExprFailed,
    EvalBlockFailed,
    EvalStmtFailed,
    EvalBinOpLhsFailed,
    EvalBinOpRhsFailed,
    ApplyBinOpFailed,
    BinOpAssignListIndexFailed,
    BinOpAssignObjectIndexFailed,
    BinOpAssignPropFailed,
    EvalListItemsFailed,
    EvalListItemFailed,
    EvalSourceExprFailed,
    EvalIndexToI64Failed,
    ConvertIndexToUsizeFailed,
    EvalStringIndexFailed,
    EvalListIndexFailed,
    EvalObjectIndexFailed,
    EvalObjectPropFailed,
    EvalStartIndexFailed,
    EvalEndIndexFailed,
    EvalStringRangeIndexFailed,
    EvalListRangeIndexFailed,
    EvalRangeStartFailed,
    EvalRangeEndFailed,
    EvalPropNameFailed,
    EvalCallFailed,
    EvalCallArgsFailed,
    EvalCallFuncFailed,
    EvalExprFailed,
    EvalPropFailed,
    InterpolateStringFailed,
    InterpolateStringEvalExprFailed,
    AssertArgsFailed,
    AssertThisFailed,
    AssertNoThisFailed,
    AssertStrFailed,
    AssertListFailed,
}

/// An evaluation error.
///
/// An error that arose at a place in the source is wrapped in
/// [`Error::AtLoc`] where it arose. The enclosing steps add
/// [`Error::Context`] around it and no further location.
#[derive(Debug, PartialEq, Eq)]
#[allow(inconsistent_fields)]
pub enum Error {
    /// A value that is no function was called.
    CannotCallNonFunc { v: Value },
    /// A name was read or assigned that no scope holds.
    Undefined { name: String },
    /// A shorthand property is not a plain name.
    ObjectPropShorthandNotVar,
    /// The left-hand side cannot be bound to.
    InvalidBindTarget { descr: String },
    /// One binding names the same variable twice.
    AlreadyInBinding { name: String },
    /// The innermost scope already declares the name, at the given place.
    AlreadyInScope { name: String, prev_line: usize, prev_col: usize },
    IncorrectType { descr: String, exp_type: String, value: Value },
    /// Bytes that should form text are not UTF-8.
    StringConstructionFailed { reason: String, descr: String },
    ArgNumMismatch { need: usize, got: usize },
    TooFewArgs { minimum: usize, got: usize },
    InvalidOpTypes { op: BinaryOp, lhs: Value, rhs: Value },
    BreakOutsideLoop,
    ContinueOutsideLoop,
    ReturnOutsideFunction,
    ForIterNotIterable,
    ValueNotIndexable,
    ValueNotIndexAssignable,
    ValueNotRangeIndexAssignable,
    AssignToTypeProp,
    OutOfStringBounds { index: usize },
    OutOfListBounds { index: usize },
    RangeOutOfStringBounds { start: usize, end: usize },
    RangeOutOfListBounds { start: usize, end: usize },
    RangeStartOutOfListBounds { start: usize, list_len: usize },
    RangeStartNotBeforeEnd { start: usize, end: usize },
    RangeEndOutOfListBounds { end: usize, list_len: usize },
    ValueNotRangeIndexable,
    NegativeIndex { index: i64 },
    ListCollectOutsideDestructure,
    ObjectCollectOutsideDestructure,
    ObjectCollectIsNotLast,
    SpreadNonListInList { value: Value },
    SpreadNonObjectInObject { value: Value },
    RangeIndexAssignOnNonIndexable { value: Value },
    ObjectDestructureOnNonObject { value: Value },
    SpreadOnObjectDestructure,
    ListDestructureOnNonList { value: Value },
    ListDestructureItemMismatch { lhs_len: usize, rhs_len: usize },
    ListCollectTooFew { lhs_len: usize, rhs_len: usize },
    SpreadInListDestructure { index: usize },
    RangeIndexItemMismatch { range_len: usize, rhs_len: usize },
    PropNotFound { name: String },
    TypeFunctionNotFound { value: Value, name: String },
    TypeFunctionOnNull,
    PropAccessOnNonObject { value: Value },
    InterpolatedValueNotString { value: Value },
    InterpolateStringParseFailed { source_str: String },
    OpOnUndefinedIndex { name: String },
    OpOnUndefinedProp { name: String },
    OpOnRangeIndex,
    OpOnObjectDestructure,
    OpOnListDestructure,
    IntOverflow { op: BinaryOp, lhs: i64, rhs: i64 },
    DupParamName { name: String, line: usize, col: usize },
    PropSpreadInParamList,
    ItemSpreadInParamList,
    /// An index does not fit the machine's word.
    CastFailed,
    /// The machine's step budget ran out.
    StepLimitReached,
    BuiltinFuncErr { msg: String },
    /// A state that no well-formed tree reaches.
    Dev { msg: String },
    /// `source`, raised at the given line and column.
    AtLoc { source: Box<Error>, line: usize, col: usize },
    /// `source`, raised while doing what `context` names.
    Context { context: Context, source: Box<Error> },
    EvalPropValueFailed { source: Box<Error>, name: String },
    EvalBuiltinFuncCallFailed { source: Box<Error>, func_name: Option<String>, call_loc: Location },
    EvalFuncCallFailed { source: Box<Error>, func_name: Option<String>, call_loc: Location },
}

/// What an [`Error`] stands for.
#[allow(inconsistent_fields)]
pub enum Failure {
    CannotCallNonFunc { v: Val },
    Undefined { name: Seq<char> },
    ObjectPropShorthandNotVar,
    InvalidBindTarget { descr: Seq<char> },
    AlreadyInBinding { name: Seq<char> },
    AlreadyInScope { name: Seq<char>, prev_line: usize, prev_col: usize },
    IncorrectType { descr: Seq<char>, exp_type: Seq<char>, value: Val },
    StringConstructionFailed { reason: Seq<char>, descr: Seq<char> },
    ArgNumMismatch { need: usize, got: usize },
    TooFewArgs { minimum: usize, got: usize },
    InvalidOpTypes { op: BinaryOp, lhs: Val, rhs: Val },
    BreakOutsideLoop,
    ContinueOutsideLoop,
    ReturnOutsideFunction,
    ForIterNotIterable,
    ValueNotIndexable,
    ValueNotIndexAssignable,
    ValueNotRangeIndexAssignable,
    AssignToTypeProp,
    OutOfStringBounds { index: usize },
    OutOfListBounds { index: usize },
    RangeOutOfStringBounds { start: usize, end: usize },
    RangeOutOfListBounds { start: usize, end: usize },
    RangeStartOutOfListBounds { start: usize, list_len: usize },
    RangeStartNotBeforeEnd { start: usize, end: usize },
    RangeEndOutOfListBounds { end: usize, list_len: usize },
    ValueNotRangeIndexable,
    NegativeIndex { index: i64 },
    ListCollectOutsideDestructure,
    ObjectCollectOutsideDestructure,
    ObjectCollectIsNotLast,
    SpreadNonListInList { value: Val },
    SpreadNonObjectInObject { value: Val },
    RangeIndexAssignOnNonIndexable { value: Val },
    ObjectDestructureOnNonObject { value: Val },
    SpreadOnObjectDestructure,
    ListDestructureOnNonList { value: Val },
    ListDestructureItemMismatch { lhs_len: usize, rhs_len: usize },
    ListCollectTooFew { lhs_len: usize, rhs_len: usize },
    SpreadInListDestructure { index: usize },
    RangeIndexItemMismatch { range_len: usize, rhs_len: usize },
    PropNotFound { name: Seq<char> },
    TypeFunctionNotFound { value: Val, name: Seq<char> },
    TypeFunctionOnNull,
    PropAccessOnNonObject { value: Val },
    InterpolatedValueNotString { value: Val },
    InterpolateStringParseFailed { source_str: Seq<char> },
    OpOnUndefinedIndex { name: Seq<char> },
    OpOnUndefinedProp { name: Seq<char> },
    OpOnRangeIndex,
    OpOnObjectDestructure,
    OpOnListDestructure,
    IntOverflow { op: BinaryOp, lhs: i64, rhs: i64 },
    DupParamName { name: Seq<char>, line: usize, col: usize },
    PropSpreadInParamList,
    ItemSpreadInParamList,
    CastFailed,
    StepLimitReached,
    BuiltinFuncErr { msg: Seq<char> },
    Dev { msg: Seq<char> },
    AtLoc { source: Box<Failure>, line: usize, col: usize },
    Context { context: Context, source: Box<Failure> },
    EvalPropValueFailed { source: Box<Failure>, name: Seq<char> },
    EvalBuiltinFuncCallFailed {
        source: Box<Failure>,
        func_name: Option<Seq<char>>,
        call_loc: Location,
    },
    EvalFuncCallFailed { source: Box<Failure>, func_name: Option<Seq<char>>, call_loc: Location },
}

/// The view of an optional string.
pub open spec fn opt_text(s: Option<String>) -> Option<Seq<char>> {
    match s {
        Some(s) => Some(s@),
        None => None,
    }
}

/// What `e` stands for.
pub open spec fn failure_of(e: Error) -> Failure
    decreases e,
{
    match e {
        Error::CannotCallNonFunc { v } => Failure::CannotCallNonFunc { v: v@ },
        Error::Undefined { name } => Failure::Undefined { name: name@ },
        Error::ObjectPropShorthandNotVar => Failure::ObjectPropShorthandNotVar,
        Error::InvalidBindTarget { descr } => Failure::InvalidBindTarget { descr: descr@ },
        Error::AlreadyInBinding { name } => Failure::AlreadyInBinding { name: name@ },
        Error::AlreadyInScope { name, prev_line, prev_col } => Failure::AlreadyInScope {
            name: name@,
            prev_line,
            prev_col,
        },
        Error::IncorrectType { descr, exp_type, value } => Failure::IncorrectType {
            descr: descr@,
            exp_type: exp_type@,
            value: value@,
        },
        Error::StringConstructionFailed { reason, descr } => Failure::StringConstructionFailed {
            reason: reason@,
            descr: descr@,
        },
        Error::ArgNumMismatch { need, got } => Failure::ArgNumMismatch { need, got },
        Error::TooFewArgs { minimum, got } => Failure::TooFewArgs { minimum, got },
        Error::InvalidOpTypes { op, lhs, rhs } => Failure::InvalidOpTypes {
            op,
            lhs: lhs@,
            rhs: rhs@,
        },
        Error::BreakOutsideLoop => Failure::BreakOutsideLoop,
        Error::ContinueOutsideLoop => Failure::ContinueOutsideLoop,
        Error::ReturnOutsideFunction => Failure::ReturnOutsideFunction,
        Error::ForIterNotIterable => Failure::ForIterNotIterable,
        Error::ValueNotIndexable => Failure::ValueNotIndexable,
        Error::ValueNotIndexAssignable => Failure::ValueNotIndexAssignable,
        Error::ValueNotRangeIndexAssignable => Failure::ValueNotRangeIndexAssignable,
        Error::AssignToTypeProp => Failure::AssignToTypeProp,
        Error::OutOfStringBounds { index } => Failure::OutOfStringBounds { index },
        Error::OutOfListBounds { index } => Failure::OutOfListBounds { index },
        Error::RangeOutOfStringBounds { start, end } => Failure::RangeOutOfStringBounds {
            start,
            end,
        },
        Error::RangeOutOfListBounds { start, end } => Failure::RangeOutOfListBounds { start, end },
        Error::RangeStartOutOfListBounds { start, list_len } => Failure::RangeStartOutOfListBounds {
            start,
            list_len,
        },
        Error::RangeStartNotBeforeEnd { start, end } => Failure::RangeStartNotBeforeEnd {
            start,
            end,
        },
        Error::RangeEndOutOfListBounds { end, list_len } => Failure::RangeEndOutOfListBounds {
            end,
            list_len,
        },
        Error::ValueNotRangeIndexable => Failure::ValueNotRangeIndexable,
        Error::NegativeIndex { index } => Failure::NegativeIndex { index },
        Error::ListCollectOutsideDestructure => Failure::ListCollectOutsideDestructure,
        Error::ObjectCollectOutsideDestructure => Failure::ObjectCollectOutsideDestructure,
        Error::ObjectCollectIsNotLast => Failure::ObjectCollectIsNotLast,
        Error::SpreadNonListInList { value } => Failure::SpreadNonListInList { value: value@ },
        Error::SpreadNonObjectInObject { value } => Failure::SpreadNonObjectInObject {
            value: value@,
        },
        Error::RangeIndexAssignOnNonIndexable { value } => Failure::RangeIndexAssignOnNonIndexable {
            value: value@,
        },
        Error::ObjectDestructureOnNonObject { value } => Failure::ObjectDestructureOnNonObject {
            value: value@,
        },
        Error::SpreadOnObjectDestructure => Failure::SpreadOnObjectDestructure,
        Error::ListDestructureOnNonList { value } => Failure::ListDestructureOnNonList {
            value: value@,
        },
        Error::ListDestructureItemMismatch { lhs_len, rhs_len } => Failure::ListDestructureItemMismatch {
            lhs_len,
            rhs_len,
        },
        Error::ListCollectTooFew { lhs_len, rhs_len } => Failure::ListCollectTooFew {
            lhs_len,
            rhs_len,
        },
        Error::SpreadInListDestructure { index } => Failure::SpreadInListDestructure { index },
        Error::RangeIndexItemMismatch { range_len, rhs_len } => Failure::RangeIndexItemMismatch {
            range_len,
            rhs_len,
        },
        Error::PropNotFound { name } => Failure::PropNotFound { name: name@ },
        Error::TypeFunctionNotFound { value, name } => Failure::TypeFunctionNotFound {
            value: value@,
            name: name@,
        },
        Error::TypeFunctionOnNull => Failure::TypeFunctionOnNull,
        Error::PropAccessOnNonObject { value } => Failure::PropAccessOnNonObject { value: value@ },
        Error::InterpolatedValueNotString { value } => Failure::InterpolatedValueNotString {
            value: value@,
        },
        Error::InterpolateStringParseFailed { source_str } => Failure::InterpolateStringParseFailed {
            source_str: source_str@,
        },
        Error::OpOnUndefinedIndex { name } => Failure::OpOnUndefinedIndex { name: name@ },
        Error::OpOnUndefinedProp { name } => Failure::OpOnUndefinedProp { name: name@ },
        Error::OpOnRangeIndex => Failure::OpOnRangeIndex,
        Error::OpOnObjectDestructure => Failure::OpOnObjectDestructure,
        Error::OpOnListDestructure => Failure::OpOnListDestructure,
        Error::IntOverflow { op, lhs, rhs } => Failure::IntOverflow { op, lhs, rhs },
        Error::DupParamName { name, line, col } => Failure::DupParamName { name: name@, line, col },
        Error::PropSpreadInParamList => Failure::PropSpreadInParamList,
        Error::ItemSpreadInParamList => Failure::ItemSpreadInParamList,
        Error::CastFailed => Failure::CastFailed,
        Error::StepLimitReached => Failure::StepLimitReached,
        Error::BuiltinFuncErr { msg } => Failure::BuiltinFuncErr { msg: msg@ },
        Error::Dev { msg } => Failure::Dev { msg: msg@ },
        Error::AtLoc { source, line, col } => Failure::AtLoc {
            source: Box::new(failure_of(*source)),
            line,
            col,
        },
        Error::Context { context, source } => Failure::Context {
            context,
            source: Box::new(failure_of(*source)),
        },
        Error::EvalPropValueFailed { source, name } => Failure::EvalPropValueFailed {
            source: Box::new(failure_of(*source)),
            name: name@,
        },
        Error::EvalBuiltinFuncCallFailed { source, func_name, call_loc } => Failure::EvalBuiltinFuncCallFailed {
            source: Box::new(failure_of(*source)),
            func_name: opt_text(func_name),
            call_loc,
        },
        Error::EvalFuncCallFailed { source, func_name, call_loc } => Failure::EvalFuncCallFailed {
            source: Box::new(failure_of(*source)),
            func_name: opt_text(func_name),
            call_loc,
        },
    }
}

impl View for Error {
    type V = Failure;

    open spec fn view(&self) -> Failure {
        failure_of(*self)
    }
}

impl Failure {
    /// This error, raised at `loc`.
    pub open spec fn at(self, loc: Location) -> Failure {
        Failure::AtLoc { source: Box::new(self), line: loc.0, col: loc.1 }
    }

    /// This error, raised while doing what `context` names.
    pub open spec fn within(self, context: Context) -> Failure {
        Failure::Context { context, source: Box::new(self) }
    }
}

/// The view of a result: the view of what it holds, on either side.
pub open spec fn rview<T: View>(r: Result<T>) -> core::result::Result<T::V, Failure> {
    match r {
        Ok(v) => Ok(v@),
        Err(e) => Err(e@),
    }
}

/// `r` with `context` added around its error, if it holds one.
pub open spec fn ctx<T>(r: core::result::Result<T, Failure>, context: Context) -> core::result::Result<T, Failure> {
    match r {
        Ok(v) => Ok(v),
        Err(e) => Err(e.within(context)),
    }
}

/// `source`, raised at `loc`.
pub fn at_loc(source: Error, loc: Location) -> (e: Error)
    ensures
        e == (Error::AtLoc { source: Box::new(source), line: loc.0, col: loc.1 }),
        e@ == source@.at(loc),
        placed(e@),
{
    Error::AtLoc { source: Box::new(source), line: loc.0, col: loc.1 }
}

/// The failure `source`, raised at `loc`.
pub fn fail_at<T>(source: Error, loc: Location) -> (r: Result<T>)
    ensures
        r == Err::<T, Error>(Error::AtLoc { source: Box::new(source), line: loc.0, col: loc.1 }),
        r matches Err(e) && e@ == source@.at(loc) && placed(e@),
{
    Err(at_loc(source, loc))
}

/// `r` with `context` added around its error, if it holds one.
pub fn in_context<T>(r: Result<T>, context: Context) -> (out: Result<T>)
    ensures
        match r {
            Ok(v) => out == Ok::<T, Error>(v),
            Err(e) => out == Err::<T, Error>(Error::Context { context, source: Box::new(e) }),
        },
        r matches Err(e) ==> (out matches Err(e2) && e2@ == e@.within(context) && (placed(e@)
            ==> placed(e2@))),
{
    match r {
        Ok(v) => Ok(v),
        Err(e) => Err(Error::Context { context, source: Box::new(e) }),
    }
}

/// The canonical name of a value's type.
pub open spec fn type_text(v: Val) -> Seq<char> {
    match v {
        Val::Null => "null"@,
        Val::Bool(_) => "bool"@,
        Val::Int(_) => "int"@,
        Val::Str(_) => "string"@,
        Val::List(_) => "list"@,
        Val::Object(_) => "object"@,
        Val::BuiltinFunc { .. } => "func"@,
        Val::Func(_) => "func"@,
    }
}

pub fn render_type(v: &Value) -> (s: String)
    ensures
        s@ == type_text(v@),
{
    let s = match v {
        Value::Null => "null",
        Value::Bool(_) => "bool",
        Value::Int(_) => "int",
        Value::Str(_) => "string",
        Value::List(_) => "list",
        Value::Object(_) => "object",
        Value::BuiltinFunc { .. } => "func",
        Value::Func(_) => "func",
    };
    s.to_owned()
}

/// The symbol an operator is written with.
pub open spec fn op_text(op: BinaryOp) -> Seq<char> {
    match op {
        BinaryOp::Sum => "+"@,
        BinaryOp::Sub => "-"@,
        BinaryOp::Mul => "*"@,
        BinaryOp::Div => "/"@,
        BinaryOp::Mod => "%"@,
        BinaryOp::And => "&&"@,
        BinaryOp::Or => "||"@,
        BinaryOp::Eq => "=="@,
        BinaryOp::Ne => "!="@,
        BinaryOp::Gt => ">"@,
        BinaryOp::Gte => ">="@,
        BinaryOp::Lt => "<"@,
        BinaryOp::Lte => "<="@,
        BinaryOp::RefEq => "==="@,
        BinaryOp::RefNe => "!=="@,
    }
}

pub fn op_symbol(op: &BinaryOp) -> (s: String)
    ensures
        s@ == op_text(*op),
{
    let s = match op {
        BinaryOp::Sum => "+",
        BinaryOp::Sub => "-",
        BinaryOp::Mul => "*",
        BinaryOp::Div => "/",
        BinaryOp::Mod => "%",
        BinaryOp::And => "&&",
        BinaryOp::Or => "||",
        BinaryOp::Eq => "==",
        BinaryOp::Ne => "!=",
        BinaryOp::Gt => ">",
        BinaryOp::Gte => ">=",
        BinaryOp::Lt => "<",
        BinaryOp::Lte => "<=",
        BinaryOp::RefEq => "===",
        BinaryOp::RefNe => "!==",
    };
    s.to_owned()
}

} // verus!
