//! What errors say.

use vstd::prelude::*;

use crate::ast::Location;
use crate::eval::error::Error;
use crate::eval::error::Failure;
use crate::eval::error::op_symbol;
use crate::eval::error::op_text;
use crate::eval::error::render_type;
use crate::eval::error::type_text;
use crate::text::decimal;
use crate::text::i64_to_string;
use crate::text::int_text;
use crate::text::usize_to_string;

verus! {

/// What an error says, without the place it was raised at and without
/// what the evaluator was doing: the message of the error that the others
/// are wrapped around.
pub open spec fn message_text(e: Failure) -> Seq<char>
    decreases e,
{
    match e {
        Failure::CannotCallNonFunc { v } => "can't call '"@ + type_text(v) + "' as a function"@,
        Failure::Undefined { name } => "'"@ + name + "' is not defined"@,
        Failure::ObjectPropShorthandNotVar => "object property name isn't a variable"@,
        Failure::InvalidBindTarget { descr } => "cannot bind to "@ + descr,
        Failure::AlreadyInBinding { name } => "'"@ + name
            + "' is bound multiple times in this binding"@,
        Failure::AlreadyInScope { name, prev_line, prev_col } => "'"@ + name
            + "' is already defined in the current scope at ["@ + decimal(prev_line as nat) + ":"@
            + decimal(prev_col as nat) + "]"@,
        Failure::IncorrectType { descr, exp_type, value } => descr + " must be '"@ + exp_type
            + "', got '"@ + type_text(value) + "'"@,
        Failure::StringConstructionFailed { reason, descr } => "couldn't create "@ + descr
            + " string: "@ + reason,
        Failure::ArgNumMismatch { need, got } => "expected "@ + decimal(need as nat)
            + " arguments, got "@ + decimal(got as nat),
        Failure::TooFewArgs { minimum, got } => "expected at least "@ + decimal(minimum as nat)
            + " arguments, got "@ + decimal(got as nat),
        Failure::InvalidOpTypes { op, lhs, rhs } => "can't apply '"@ + op_text(op) + "' to '"@
            + type_text(lhs) + "' and '"@ + type_text(rhs) + "'"@,
        Failure::BreakOutsideLoop => "'break' can't be used outside of a loop"@,
        Failure::ContinueOutsideLoop => "'continue' can't be used outside of a loop"@,
        Failure::ReturnOutsideFunction => "'return' can't be used outside of a function"@,
        Failure::ForIterNotIterable => "'for' iterator must be a 'list', 'object' or 'string'"@,
        Failure::ValueNotIndexable => "only 'list's, 'object's or 'string's can be indexed"@,
        Failure::ValueNotIndexAssignable => "only 'list's or 'object's can update indices"@,
        Failure::ValueNotRangeIndexAssignable => "only 'list's can update range indices"@,
        Failure::AssignToTypeProp => "type properties cannot be assigned to"@,
        Failure::OutOfStringBounds { index } => "index '"@ + decimal(index as nat)
            + "' is outside the string bounds"@,
        Failure::OutOfListBounds { index } => "index '"@ + decimal(index as nat)
            + "' is outside the list bounds"@,
        Failure::RangeOutOfStringBounds { start, end } => "range ["@ + decimal(start as nat)
            + ":"@ + decimal(end as nat) + "] is outside the string bounds"@,
        Failure::RangeOutOfListBounds { start, end } => "range ["@ + decimal(start as nat) + ":"@
            + decimal(end as nat) + "] is outside the list bounds"@,
        Failure::RangeStartOutOfListBounds { start, list_len } => "range start ("@
            + decimal(start as nat) + ") is greater than list length ("@
            + decimal(list_len as nat) + ")"@,
        Failure::RangeStartNotBeforeEnd { start, end } => "range end ("@ + decimal(end as nat)
            + ") must be greater than range start ("@ + decimal(start as nat) + ")"@,
        Failure::RangeEndOutOfListBounds { end, list_len } => "range end ("@ + decimal(end as nat)
            + ") is greater than list length ("@ + decimal(list_len as nat) + ")"@,
        Failure::ValueNotRangeIndexable => "only 'list's or 'string's can be range-indexed"@,
        Failure::NegativeIndex { .. } => "index can't be negative"@,
        Failure::ListCollectOutsideDestructure => "cannot collect 'list' items outside a destructure"@,
        Failure::ObjectCollectOutsideDestructure => "cannot collect 'object' items outside a destructure"@,
        Failure::ObjectCollectIsNotLast => "only the last item in the destructure can collect"@,
        Failure::SpreadNonListInList { value } => "only lists can be spread in lists, got '"@
            + type_text(value) + "'"@,
        Failure::SpreadNonObjectInObject { value } => "only objects can be spread in objects, got '"@
            + type_text(value) + "'"@,
        Failure::RangeIndexAssignOnNonIndexable { value } => "only 'list's or 'string's can be assigned to range indexes, got '"@
            + type_text(value) + "'"@,
        Failure::ObjectDestructureOnNonObject { value } => "only objects can be destructured into objects, got '"@
            + type_text(value) + "'"@,
        Failure::SpreadOnObjectDestructure => "can't use spread operator in object destructuring"@,
        Failure::ListDestructureOnNonList { value } => "only lists can be destructured into lists, got '"@
            + type_text(value) + "'"@,
        Failure::ListDestructureItemMismatch { lhs_len, rhs_len } => "cannot bind "@
            + decimal(rhs_len as nat) + " item(s) to "@ + decimal(lhs_len as nat)
            + " variable name(s)"@,
        Failure::ListCollectTooFew { lhs_len, rhs_len } => "cannot bind "@
            + decimal(rhs_len as nat) + " item(s) to "@ + decimal(lhs_len as nat)
            + " variable name(s)"@,
        Failure::SpreadInListDestructure { index } => "cannot use spread operator (at index "@
            + decimal(index as nat) + ") of list destructure"@,
        Failure::RangeIndexItemMismatch { range_len, rhs_len } => "cannot bind "@
            + decimal(rhs_len as nat) + " item(s) to "@ + decimal(range_len as nat) + " index(s)"@,
        Failure::PropNotFound { name } => "object doesn't contain property '"@ + name + "'"@,
        Failure::TypeFunctionNotFound { value, name } => "there is no type function '"@ + name
            + "' for '"@ + type_text(value) + "'"@,
        Failure::TypeFunctionOnNull => "cannot access type function on 'null'"@,
        Failure::PropAccessOnNonObject { value } => "properties can only be accessed on objects, got '"@
            + type_text(value) + "'"@,
        Failure::InterpolatedValueNotString { value } => "interpolated values can only be strings, got '"@
            + type_text(value) + "'"@,
        Failure::InterpolateStringParseFailed { source_str } => "couldn't parse interpolation slot: "@
            + source_str,
        Failure::OpOnUndefinedIndex { name } => "'"@ + name + "' is not defined"@,
        Failure::OpOnUndefinedProp { name } => "'"@ + name + "' is not defined"@,
        Failure::OpOnRangeIndex => "cannot perform this operation on a range-index"@,
        Failure::OpOnObjectDestructure => "cannot perform this operation on an object destructure"@,
        Failure::OpOnListDestructure => "cannot perform this operation on an list destructure"@,
        Failure::IntOverflow { op, lhs, rhs } => "'"@ + int_text(lhs as int) + " "@ + op_text(op)
            + " "@ + int_text(rhs as int) + "' caused an integer overflow"@,
        Failure::DupParamName { name, line, col } => "'"@ + name + "' is already declared at ["@
            + decimal(line as nat) + ":"@ + decimal(col as nat) + "]"@,
        Failure::PropSpreadInParamList => "can't use spread operator in parameter list"@,
        Failure::ItemSpreadInParamList => "can't use spread operator in parameter list"@,
        Failure::CastFailed => "index doesn't fit into the machine's word"@,
        Failure::StepLimitReached => "the step limit was reached"@,
        Failure::BuiltinFuncErr { msg } => msg,
        Failure::Dev { msg } => "dev error: "@ + msg,
        Failure::AtLoc { source, .. } => message_text(*source),
        Failure::Context { source, .. } => message_text(*source),
        Failure::EvalPropValueFailed { source, .. } => message_text(*source),
        Failure::EvalBuiltinFuncCallFailed { source, .. } => message_text(*source),
        Failure::EvalFuncCallFailed { source, .. } => message_text(*source),
    }
}

impl Error {
    /// What this error says: see [`message_text`].
    pub fn message(&self) -> (s: String)
        ensures
            s@ == message_text(self@),
        decreases self,
    {
        match self {
            Error::CannotCallNonFunc { v } => {
                let mut s = String::from_str("can't call '");
                s.append(render_type(v).as_str());
                s.append("' as a function");
                s
            },
            Error::Undefined { name } => {
                let mut s = String::from_str("'");
                s.append(name.as_str());
                s.append("' is not defined");
                s
            },
            Error::ObjectPropShorthandNotVar => {
                String::from_str("object property name isn't a variable")
            },
            Error::InvalidBindTarget { descr } => {
                let mut s = String::from_str("cannot bind to ");
                s.append(descr.as_str());
                s
            },
            Error::AlreadyInBinding { name } => {
                let mut s = String::from_str("'");
                s.append(name.as_str());
                s.append("' is bound multiple times in this binding");
                s
            },
            Error::AlreadyInScope { name, prev_line, prev_col } => {
                let mut s = String::from_str("'");
                s.append(name.as_str());
                s.append("' is already defined in the current scope at [");
                s.append(usize_to_string(*prev_line).as_str());
                s.append(":");
                s.append(usize_to_string(*prev_col).as_str());
                s.append("]");
                s
            },
            Error::IncorrectType { descr, exp_type, value } => {
                let mut s = String::from_str(descr.as_str());
                s.append(" must be '");
                s.append(exp_type.as_str());
                s.append("', got '");
                s.append(render_type(value).as_str());
                s.append("'");
                s
            },
            Error::StringConstructionFailed { reason, descr } => {
                let mut s = String::from_str("couldn't create ");
                s.append(descr.as_str());
                s.append(" string: ");
                s.append(reason.as_str());
                s
            },
            Error::ArgNumMismatch { need, got } => {
                let mut s = String::from_str("expected ");
                s.append(usize_to_string(*need).as_str());
                s.append(" arguments, got ");
                s.append(usize_to_string(*got).as_str());
                s
            },
            Error::TooFewArgs { minimum, got } => {
                let mut s = String::from_str("expected at least ");
                s.append(usize_to_string(*minimum).as_str());
                s.append(" arguments, got ");
                s.append(usize_to_string(*got).as_str());
                s
            },
            Error::InvalidOpTypes { op, lhs, rhs } => {
                let mut s = String::from_str("can't apply '");
                s.append(op_symbol(op).as_str());
                s.append("' to '");
                s.append(render_type(lhs).as_str());
                s.append("' and '");
                s.append(render_type(rhs).as_str());
                s.append("'");
                s
            },
            Error::BreakOutsideLoop => {
                String::from_str("'break' can't be used outside of a loop")
            },
            Error::ContinueOutsideLoop => {
                String::from_str("'continue' can't be used outside of a loop")
            },
            Error::ReturnOutsideFunction => {
                String::from_str("'return' can't be used outside of a function")
            },
            Error::ForIterNotIterable => {
                String::from_str("'for' iterator must be a 'list', 'object' or 'string'")
            },
            Error::ValueNotIndexable => {
                String::from_str("only 'list's, 'object's or 'string's can be indexed")
            },
            Error::ValueNotIndexAssignable => {
                String::from_str("only 'list's or 'object's can update indices")
            },
            Error::ValueNotRangeIndexAssignable => {
                String::from_str("only 'list's can update range indices")
            },
            Error::AssignToTypeProp => {
                String::from_str("type properties cannot be assigned to")
            },
            Error::OutOfStringBounds { index } => {
                let mut s = String::from_str("index '");
                s.append(usize_to_string(*index).as_str());
                s.append("' is outside the string bounds");
                s
            },
            Error::OutOfListBounds { index } => {
                let mut s = String::from_str("index '");
                s.append(usize_to_string(*index).as_str());
                s.append("' is outside the list bounds");
                s
            },
            Error::RangeOutOfStringBounds { start, end } => {
                let mut s = String::from_str("range [");
                s.append(usize_to_string(*start).as_str());
                s.append(":");
                s.append(usize_to_string(*end).as_str());
                s.append("] is outside the string bounds");
                s
            },
            Error::RangeOutOfListBounds { start, end } => {
                let mut s = String::from_str("range [");
                s.append(usize_to_string(*start).as_str());
                s.append(":");
                s.append(usize_to_string(*end).as_str());
                s.append("] is outside the list bounds");
                s
            },
            Error::RangeStartOutOfListBounds { start, list_len } => {
                let mut s = String::from_str("range start (");
                s.append(usize_to_string(*start).as_str());
                s.append(") is greater than list length (");
                s.append(usize_to_string(*list_len).as_str());
                s.append(")");
                s
            },
            Error::RangeStartNotBeforeEnd { start, end } => {
                let mut s = String::from_str("range end (");
                s.append(usize_to_string(*end).as_str());
                s.append(") must be greater than range start (");
                s.append(usize_to_string(*start).as_str());
                s.append(")");
                s
            },
            Error::RangeEndOutOfListBounds { end, list_len } => {
                let mut s = String::from_str("range end (");
                s.append(usize_to_string(*end).as_str());
                s.append(") is greater than list length (");
                s.append(usize_to_string(*list_len).as_str());
                s.append(")");
                s
            },
            Error::ValueNotRangeIndexable => {
                String::from_str("only 'list's or 'string's can be range-indexed")
            },
            Error::NegativeIndex { .. } => {
                String::from_str("index can't be negative")
            },
            Error::ListCollectOutsideDestructure => {
                String::from_str("cannot collect 'list' items outside a destructure")
            },
            Error::ObjectCollectOutsideDestructure => {
                String::from_str("cannot collect 'object' items outside a destructure")
            },
            Error::ObjectCollectIsNotLast => {
                String::from_str("only the last item in the destructure can collect")
            },
            Error::SpreadNonListInList { value } => {
                let mut s = String::from_str("only lists can be spread in lists, got '");
                s.append(render_type(value).as_str());
                s.append("'");
                s
            },
            Error::SpreadNonObjectInObject { value } => {
                let mut s = String::from_str("only objects can be spread in objects, got '");
                s.append(render_type(value).as_str());
                s.append("'");
                s
            },
            Error::RangeIndexAssignOnNonIndexable { value } => {
                let mut s = String::from_str("only 'list's or 'string's can be assigned to range indexes, got '");
                s.append(render_type(value).as_str());
                s.append("'");
                s
            },
            Error::ObjectDestructureOnNonObject { value } => {
                let mut s = String::from_str("only objects can be destructured into objects, got '");
                s.append(render_type(value).as_str());
                s.append("'");
                s
            },
            Error::SpreadOnObjectDestructure => {
                String::from_str("can't use spread operator in object destructuring")
            },
            Error::ListDestructureOnNonList { value } => {
                let mut s = String::from_str("only lists can be destructured into lists, got '");
                s.append(render_type(value).as_str());
                s.append("'");
                s
            },
            Error::ListDestructureItemMismatch { lhs_len, rhs_len } => {
                let mut s = String::from_str("cannot bind ");
                s.append(usize_to_string(*rhs_len).as_str());
                s.append(" item(s) to ");
                s.append(usize_to_string(*lhs_len).as_str());
                s.append(" variable name(s)");
                s
            },
            Error::ListCollectTooFew { lhs_len, rhs_len } => {
                let mut s = String::from_str("cannot bind ");
                s.append(usize_to_string(*rhs_len).as_str());
                s.append(" item(s) to ");
                s.append(usize_to_string(*lhs_len).as_str());
                s.append(" variable name(s)");
                s
            },
            Error::SpreadInListDestructure { index } => {
                let mut s = String::from_str("cannot use spread operator (at index ");
                s.append(usize_to_string(*index).as_str());
                s.append(") of list destructure");
                s
            },
            Error::RangeIndexItemMismatch { range_len, rhs_len } => {
                let mut s = String::from_str("cannot bind ");
                s.append(usize_to_string(*rhs_len).as_str());
                s.append(" item(s) to ");
                s.append(usize_to_string(*range_len).as_str());
                s.append(" index(s)");
                s
            },
            Error::PropNotFound { name } => {
                let mut s = String::from_str("object doesn't contain property '");
                s.append(name.as_str());
                s.append("'");
                s
            },
            Error::TypeFunctionNotFound { value, name } => {
                let mut s = String::from_str("there is no type function '");
                s.append(name.as_str());
                s.append("' for '");
                s.append(render_type(value).as_str());
                s.append("'");
                s
            },
            Error::TypeFunctionOnNull => {
                String::from_str("cannot access type function on 'null'")
            },
            Error::PropAccessOnNonObject { value } => {
                let mut s = String::from_str("properties can only be accessed on objects, got '");
                s.append(render_type(value).as_str());
                s.append("'");
                s
            },
            Error::InterpolatedValueNotString { value } => {
                let mut s = String::from_str("interpolated values can only be strings, got '");
                s.append(render_type(value).as_str());
                s.append("'");
                s
            },
            Error::InterpolateStringParseFailed { source_str } => {
                let mut s = String::from_str("couldn't parse interpolation slot: ");
                s.append(source_str.as_str());
                s
            },
            Error::OpOnUndefinedIndex { name } => {
                let mut s = String::from_str("'");
                s.append(name.as_str());
                s.append("' is not defined");
                s
            },
            Error::OpOnUndefinedProp { name } => {
                let mut s = String::from_str("'");
                s.append(name.as_str());
                s.append("' is not defined");
                s
            },
            Error::OpOnRangeIndex => {
                String::from_str("cannot perform this operation on a range-index")
            },
            Error::OpOnObjectDestructure => {
                String::from_str("cannot perform this operation on an object destructure")
            },
            Error::OpOnListDestructure => {
                String::from_str("cannot perform this operation on an list destructure")
            },
            Error::IntOverflow { op, lhs, rhs } => {
                let mut s = String::from_str("'");
                s.append(i64_to_string(*lhs).as_str());
                s.append(" ");
                s.append(op_symbol(op).as_str());
                s.append(" ");
                s.append(i64_to_string(*rhs).as_str());
                s.append("' caused an integer overflow");
                s
            },
            Error::DupParamName { name, line, col } => {
                let mut s = String::from_str("'");
                s.append(name.as_str());
                s.append("' is already declared at [");
                s.append(usize_to_string(*line).as_str());
                s.append(":");
                s.append(usize_to_string(*col).as_str());
                s.append("]");
                s
            },
            Error::PropSpreadInParamList => {
                String::from_str("can't use spread operator in parameter list")
            },
            Error::ItemSpreadInParamList => {
                String::from_str("can't use spread operator in parameter list")
            },
            Error::CastFailed => {
                String::from_str("index doesn't fit into the machine's word")
            },
            Error::StepLimitReached => {
                String::from_str("the step limit was reached")
            },
            Error::BuiltinFuncErr { msg } => {
                String::from_str(msg.as_str())
            },
            Error::Dev { msg } => {
                let mut s = String::from_str("dev error: ");
                s.append(msg.as_str());
                s
            },
            Error::AtLoc { source, .. } => source.message(),
            Error::Context { source, .. } => source.message(),
            Error::EvalPropValueFailed { source, .. } => source.message(),
            Error::EvalBuiltinFuncCallFailed { source, .. } => source.message(),
            Error::EvalFuncCallFailed { source, .. } => source.message(),
        }
    }
}

/// The place that an error is reported at: the innermost place among those
/// that were put around it where it was raised, or, for an error that
/// arose in a function, the place of the innermost call that it passed
/// through.
pub open spec fn place_of(e: Failure) -> Option<Location>
    decreases e,
{
    match e {
        Failure::AtLoc { source, line, col } => match place_of(*source) {
            Some(l) => Some(l),
            None => Some((line, col)),
        },
        Failure::Context { source, .. } => place_of(*source),
        Failure::EvalPropValueFailed { source, .. } => place_of(*source),
        Failure::EvalBuiltinFuncCallFailed { source, call_loc, .. } => match place_of(*source) {
            Some(l) => Some(l),
            None => Some(call_loc),
        },
        Failure::EvalFuncCallFailed { source, call_loc, .. } => match place_of(*source) {
            Some(l) => Some(l),
            None => Some(call_loc),
        },
        _ => None,
    }
}

/// Whether `e` can be reported with a place. Every error of the evaluator
/// can: one that ends a run was raised at, or passed through, a statement,
/// an expression, an operator or a call, and took its place there.
pub open spec fn placed(e: Failure) -> bool {
    place_of(e) is Some
}

impl Error {
    /// The place that this error is reported at: see [`place_of`].
    pub fn place(&self) -> (l: Option<Location>)
        ensures
            l == place_of(self@),
        decreases self,
    {
        match self {
            Error::AtLoc { source, line, col } => match source.place() {
                Some(l) => Some(l),
                None => Some((*line, *col)),
            },
            Error::Context { source, .. } => source.place(),
            Error::EvalPropValueFailed { source, .. } => source.place(),
            Error::EvalBuiltinFuncCallFailed { source, call_loc, .. } => match source.place() {
                Some(l) => Some(l),
                None => Some(*call_loc),
            },
            Error::EvalFuncCallFailed { source, call_loc, .. } => match source.place() {
                Some(l) => Some(l),
                None => Some(*call_loc),
            },
            _ => None,
        }
    }
}

} // verus!
