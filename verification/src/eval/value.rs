//! Runtime values.
//!
//! Scalars and strings are held in the value itself. Lists, objects and
//! functions live in the [`Machine`](super::machine::Machine) and a value
//! holds a handle to them, so that every copy of the value sees a change made
//! through any other.

use vstd::prelude::*;

use crate::ast::Block;
use crate::ast::Expr;
use crate::eval::error::opt_text;
use crate::eval::machine::Func;
use crate::eval::machine::Machine;
use crate::eval::machine::props;
use crate::eval::scope::ScopeStack;
use crate::eval::state::FuncView;
use crate::eval::state::sorted;

verus! {

/// The bytes of a string value.
pub type Str = Vec<u8>;

/// Handle of a list held by the machine.
pub type ListRef = usize;

/// Handle of an object held by the machine.
pub type ObjectRef = usize;

/// Handle of a user function held by the machine.
pub type FuncRef = usize;

pub type List = Vec<SourcedValue>;

/// The properties of an object, in increasing order of their keys.
pub type Object = Vec<(String, SourcedValue)>;

/// The native functions the evaluator can call.
#[derive(Clone, Copy, Debug, PartialEq, Eq, Structural)]
pub enum BuiltinFunc {
    /// Writes the rendering of its one argument, and a newline, to the output.
    Print,
    /// The type name of the receiver.
    AnyType,
    /// The length in bytes of the receiver, a string.
    StrLen,
    /// The number of items of the receiver, a list.
    ListLen,
}

#[derive(Debug, PartialEq, Eq)]
pub enum Value {
    Null,
    Bool(bool),
    Int(i64),
    Str(Str),
    List(ListRef),
    Object(ObjectRef),
    BuiltinFunc { name: String, f: BuiltinFunc },
    Func(FuncRef),
}

/// A value together with the value it was read from, if it was read as a
/// property. For `x.f`, `v` is what `x` holds under `f` and `source` is `x`.
#[derive(Debug, PartialEq, Eq)]
pub struct SourcedValue {
    pub v: Value,
    pub source: Option<Value>,
}

/// What a [`Value`] stands for.
pub enum Val {
    Null,
    Bool(bool),
    Int(i64),
    Str(Seq<u8>),
    List(ListRef),
    Object(ObjectRef),
    BuiltinFunc { name: Seq<char>, f: BuiltinFunc },
    Func(FuncRef),
}

/// What a [`SourcedValue`] stands for.
pub struct SVal {
    pub v: Val,
    pub source: Option<Val>,
}

impl View for Value {
    type V = Val;

    open spec fn view(&self) -> Val {
        match *self {
            Value::Null => Val::Null,
            Value::Bool(b) => Val::Bool(b),
            Value::Int(n) => Val::Int(n),
            Value::Str(s) => Val::Str(s@),
            Value::List(r) => Val::List(r),
            Value::Object(r) => Val::Object(r),
            Value::BuiltinFunc { name, f } => Val::BuiltinFunc { name: name@, f },
            Value::Func(r) => Val::Func(r),
        }
    }
}

/// The view of an optional value.
pub open spec fn opt_val(v: Option<Value>) -> Option<Val> {
    match v {
        Some(v) => Some(v@),
        None => None,
    }
}

impl View for SourcedValue {
    type V = SVal;

    open spec fn view(&self) -> SVal {
        SVal { v: self.v@, source: opt_val(self.source) }
    }
}

/// The views of a sequence of values, item by item.
pub open spec fn svals(items: Seq<SourcedValue>) -> Seq<SVal> {
    Seq::new(items.len(), |i: int| items[i]@)
}

/// The view of an optional sourced value.
pub open spec fn opt_sval(v: Option<SourcedValue>) -> Option<SVal> {
    match v {
        Some(v) => Some(v@),
        None => None,
    }
}

/// A value with no source.
pub open spec fn unsourced(v: Val) -> SVal {
    SVal { v, source: None }
}

impl Clone for Value {
    fn clone(&self) -> (r: Self)
        ensures
            r@ == self@,
    {
        match self {
            Value::Null => Value::Null,
            Value::Bool(b) => Value::Bool(*b),
            Value::Int(n) => Value::Int(*n),
            Value::Str(s) => Value::Str(s.clone()),
            Value::List(r) => Value::List(*r),
            Value::Object(r) => Value::Object(*r),
            Value::BuiltinFunc { name, f } => Value::BuiltinFunc { name: name.clone(), f: *f },
            Value::Func(r) => Value::Func(*r),
        }
    }
}

impl Clone for SourcedValue {
    fn clone(&self) -> (r: Self)
        ensures
            r@ == self@,
    {
        let source = match &self.source {
            Some(s) => Some(s.clone()),
            None => None,
        };
        SourcedValue { v: self.v.clone(), source }
    }
}

pub fn new_val_ref_with_no_source(v: Value) -> (r: SourcedValue)
    ensures
        r.v == v,
        r.source is None,
        r@ == unsourced(v@),
{
    SourcedValue { v, source: None }
}

pub fn new_val_ref_with_source(v: Value, source: Value) -> (r: SourcedValue)
    ensures
        r.v == v,
        r.source == Some(source),
        r@ == (SVal { v: v@, source: Some(source@) }),
{
    SourcedValue { v, source: Some(source) }
}

pub fn new_null() -> (r: SourcedValue)
    ensures
        r@ == unsourced(Val::Null),
{
    new_val_ref_with_no_source(Value::Null)
}

pub fn new_bool(b: bool) -> (r: SourcedValue)
    ensures
        r@ == unsourced(Val::Bool(b)),
{
    new_val_ref_with_no_source(Value::Bool(b))
}

pub fn new_int(n: i64) -> (r: SourcedValue)
    ensures
        r@ == unsourced(Val::Int(n)),
{
    new_val_ref_with_no_source(Value::Int(n))
}

pub fn new_str(s: Str) -> (r: SourcedValue)
    ensures
        r@ == unsourced(Val::Str(s@)),
{
    new_val_ref_with_no_source(Value::Str(s))
}

/// The string value that holds the UTF-8 bytes of `s`.
pub fn new_str_from_string(s: String) -> (r: SourcedValue)
    ensures
        r@ == unsourced(Val::Str(vstd::utf8::encode_utf8(s@))),
{
    new_val_ref_with_no_source(Value::Str(s.as_str().as_bytes_vec()))
}

/// A new list that holds `list`.
pub fn new_list<'a>(m: &mut Machine<'a>, list: List) -> (r: SourcedValue)
    requires
        old(m)@.wf(),
        old(m)@.svals_ok(svals(list@)),
    ensures
        final(m)@ == old(m)@.with_list(svals(list@)),
        r@ == unsourced(Val::List(old(m)@.lists.len() as usize)),
        r@.v matches Val::List(h) && h == old(m)@.lists.len() && final(m)@.lists[h as int] == svals(list@),
        final(m)@.wf(),
        old(m)@.grows_to(final(m)@),
        old(m)@.keeps_names(final(m)@, None),
        final(m)@.sval_ok(r@),
{
    let r = m.alloc_list(list);
    new_val_ref_with_no_source(Value::List(r))
}

/// A new object that holds `object`.
pub fn new_object<'a>(m: &mut Machine<'a>, object: Object) -> (r: SourcedValue)
    requires
        old(m)@.wf(),
        sorted(props(object@)),
        old(m)@.props_ok(props(object@)),
    ensures
        final(m)@ == old(m)@.with_object(props(object@)),
        r@ == unsourced(Val::Object(old(m)@.objects.len() as usize)),
        r@.v matches Val::Object(h) && h == old(m)@.objects.len() && final(m)@.objects[h as int] == props(object@),
        final(m)@.wf(),
        old(m)@.grows_to(final(m)@),
        old(m)@.keeps_names(final(m)@, None),
        final(m)@.sval_ok(r@),
{
    let r = m.alloc_object(object);
    new_val_ref_with_no_source(Value::Object(r))
}

/// A new user function with the given parameters and body, which runs in
/// the scopes of `closure`.
pub fn new_func<'a>(
    m: &mut Machine<'a>,
    name: Option<String>,
    args: &'a Vec<Expr>,
    collect_args: bool,
    stmts: &'a Block,
    closure: ScopeStack,
) -> (r: SourcedValue)
    requires
        old(m)@.wf(),
        old(m)@.stack_ok(closure@),
    ensures
        final(m)@ == old(m)@.with_func(
            FuncView {
                name: opt_text(name),
                args: args@,
                collect_args,
                stmts: stmts@,
                closure: closure@,
            },
        ),
        r@ == unsourced(Val::Func(old(m)@.funcs.len() as usize)),
        r@.v matches Val::Func(h) && h == old(m)@.funcs.len() && final(m)@.funcs[h as int].closure
            == closure@,
        final(m)@.wf(),
        old(m)@.grows_to(final(m)@),
        old(m)@.keeps_names(final(m)@, None),
        final(m)@.sval_ok(r@),
{
    let r = m.alloc_func(Func { name, args, collect_args, stmts, closure });
    new_val_ref_with_no_source(Value::Func(r))
}

pub fn new_built_in_func(name: String, f: BuiltinFunc) -> (r: SourcedValue)
    ensures
        r@ == unsourced(Val::BuiltinFunc { name: name@, f }),
{
    new_val_ref_with_no_source(Value::BuiltinFunc { name, f })
}

/// Whether two handles name the same list, object or function.
pub fn ref_eq(a: &usize, b: &usize) -> (r: bool)
    ensures
        r == (*a == *b),
{
    *a == *b
}

} // verus!
