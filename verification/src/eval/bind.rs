//! Binding: how the value on the right of a declaration or an assignment
//! reaches the names, items and properties on its left.

use vstd::prelude::*;

use crate::ast::BinaryOp;
use crate::ast::Expr;
use crate::ast::ListItem;
use crate::ast::Location;
use crate::ast::PropItem;
use crate::ast::RawExpr;
use crate::eval::EvaluationContext;
use crate::eval::error::Context;
use crate::eval::error::Error;
use crate::eval::error::Failure;
use crate::eval::error::Result;
use crate::eval::error::fail_at;
use crate::eval::error::in_context;
use crate::eval::error::rview;
use crate::eval::expr::eval_expr;
use crate::eval::machine::Machine;
use crate::eval::machine::props;
use crate::eval::message::placed;
use crate::eval::ops::apply_binary_operation;
use crate::eval::scope::ScopeStack;
use crate::eval::semantics::Names;
use crate::eval::semantics::bind_index_spec;
use crate::eval::semantics::bind_list_items_spec;
use crate::eval::semantics::bind_list_spec;
use crate::eval::semantics::bind_name_spec;
use crate::eval::semantics::bind_next_name_spec;
use crate::eval::semantics::bind_next_spec;
use crate::eval::semantics::bind_object_prop_spec;
use crate::eval::semantics::bind_object_spec;
use crate::eval::semantics::bind_prop_spec;
use crate::eval::semantics::bind_range_index_spec;
use crate::eval::semantics::bind_range_spec;
use crate::eval::semantics::bind_spec;
use crate::eval::semantics::bytes_as_items;
use crate::eval::semantics::eval_bound_spec;
use crate::eval::semantics::eval_expr_spec;
use crate::eval::semantics::eval_expr_to_index_spec;
use crate::eval::semantics::eval_expr_to_str_spec;
use crate::eval::semantics::keys_of;
use crate::eval::semantics::overwrite_spec;
use crate::eval::semantics::ready;
use crate::eval::semantics::rest_of;
use crate::eval::semantics::stored_spec;
use crate::eval::state::innermost;
use crate::eval::state::St;
use crate::eval::state::lemma_grows_sval_ok;
use crate::eval::state::lemma_grows_svals_ok;
use crate::eval::state::lemma_grows_transitive;
use crate::eval::state::lemma_lookup_ok;
use crate::eval::state::sorted;
use crate::eval::typed::eval_bound;
use crate::eval::typed::eval_expr_to_index;
use crate::eval::typed::eval_expr_to_str;
use crate::eval::value::ListRef;
use crate::eval::value::Object;
use crate::eval::value::ObjectRef;
use crate::eval::value::SVal;
use crate::eval::value::SourcedValue;
use crate::eval::value::Val;
use crate::eval::value::Value;
use crate::eval::value::new_list;
use crate::eval::value::new_object;
use crate::eval::value::new_str;
use crate::eval::value::new_val_ref_with_no_source;
use crate::eval::value::svals;
use crate::eval::value::unsourced;

verus! {

/// Whether a binding declares its names or stores into names that exist.
#[derive(Clone, Copy, Debug, PartialEq, Eq, Structural)]
pub enum BindType {
    Declaration,
    Assignment,
}

/// The names that `names` stands for.
pub open spec fn names_view(names: Seq<String>) -> Names {
    Seq::new(names.len(), |i: int| names[i]@)
}

/// The outcome of a binding that left `names` bound.
pub open spec fn bound(r: Result<()>, names: Seq<String>) -> core::result::Result<Names, Failure> {
    match r {
        Ok(_) => Ok(names_view(names)),
        Err(e) => Err(e@),
    }
}

/// Whether `name` is one of `names`.
pub fn contains_name(names: &Vec<String>, name: &String) -> (r: bool)
    ensures
        r == names_view(names@).contains(name@),
{
    let mut i: usize = 0;
    while i < names.len()
        invariant
            i <= names.len(),
            forall|j: int| 0 <= j < i ==> names_view(names@)[j] != name@,
        decreases names.len() - i,
    {
        if names[i] == *name {
            assert(names_view(names@)[i as int] == name@);
            return true;
        }
        i = i + 1;
    }
    false
}

/// Binds the pattern `lhs` to `rhs`: the names in it are declared or
/// assigned, as `bind_type` says, and the items and properties it names are
/// stored into.
pub fn bind<'a>(
    context: &EvaluationContext<'a>,
    m: &mut Machine<'a>,
    scopes: &ScopeStack,
    lhs: &'a Expr,
    rhs: SourcedValue,
    bind_type: BindType,
) -> (r: Result<()>)
    requires
        ready(*context.builtins, old(m)@, scopes@),
        old(m)@.sval_ok(rhs@),
    ensures
        (final(m)@, rview(r)) == bind_spec(
            *context.builtins,
            old(m)@,
            scopes@,
            lhs.0,
            lhs.1,
            rhs@,
            bind_type,
        ),
        ready(*context.builtins, final(m)@, scopes@),
        old(m)@.grows_to(final(m)@),
        old(m)@.keeps_names(final(m)@, innermost(scopes@)),
        bind_type is Assignment ==> old(m)@.keeps_names(final(m)@, None),
        r matches Err(e) ==> placed(e@),
    decreases old(m)@.fuel, 5nat, 0nat,
{
    proof {
        reveal(bind_spec);
    }
    bind_raw(context, m, scopes, &lhs.0, lhs.1, rhs, bind_type)
}

/// Binds the pattern `raw`, which stands at `loc`, to `rhs`.
pub fn bind_raw<'a>(
    context: &EvaluationContext<'a>,
    m: &mut Machine<'a>,
    scopes: &ScopeStack,
    raw: &'a RawExpr,
    loc: Location,
    rhs: SourcedValue,
    bind_type: BindType,
) -> (r: Result<()>)
    requires
        ready(*context.builtins, old(m)@, scopes@),
        old(m)@.sval_ok(rhs@),
    ensures
        (final(m)@, rview(r)) == bind_spec(
            *context.builtins,
            old(m)@,
            scopes@,
            *raw,
            loc,
            rhs@,
            bind_type,
        ),
        ready(*context.builtins, final(m)@, scopes@),
        old(m)@.grows_to(final(m)@),
        old(m)@.keeps_names(final(m)@, innermost(scopes@)),
        bind_type is Assignment ==> old(m)@.keeps_names(final(m)@, None),
        r matches Err(e) ==> placed(e@),
    decreases old(m)@.fuel, 4nat, 0nat,
{
    proof {
        reveal(bind_spec);
        reveal(bind_next_spec);
    }
    let mut names: Vec<String> = Vec::new();
    assert(names_view(names@) =~= seq![]);
    bind_next(context, m, scopes, &mut names, raw, loc, rhs, None, bind_type)
}

/// Binds `raw` to `rhs` as a part of a binding that has bound
/// `names_in_binding` so far.
pub fn bind_next<'a>(
    context: &EvaluationContext<'a>,
    m: &mut Machine<'a>,
    scopes: &ScopeStack,
    names_in_binding: &mut Vec<String>,
    raw: &'a RawExpr,
    loc: Location,
    rhs: SourcedValue,
    op: Option<(BinaryOp, Location)>,
    bind_type: BindType,
) -> (r: Result<()>)
    requires
        ready(*context.builtins, old(m)@, scopes@),
        old(m)@.sval_ok(rhs@),
    ensures
        (final(m)@, bound(r, final(names_in_binding)@)) == bind_next_spec(
            *context.builtins,
            old(m)@,
            scopes@,
            names_view(old(names_in_binding)@),
            *raw,
            loc,
            rhs@,
            op,
            bind_type,
        ),
        ready(*context.builtins, final(m)@, scopes@),
        old(m)@.grows_to(final(m)@),
        old(m)@.keeps_names(final(m)@, innermost(scopes@)),
        bind_type is Assignment ==> old(m)@.keeps_names(final(m)@, None),
        r matches Err(e) ==> placed(e@),
    decreases old(m)@.fuel, 0nat, 0nat,
{
    proof {
        reveal(bind_next_spec);
        reveal(bind_index_spec);
        reveal(bind_range_spec);
        reveal(bind_prop_spec);
        reveal(bind_object_spec);
        reveal(bind_list_spec);
    }
    if !m.tick() {
        return fail_at(Error::StepLimitReached, loc);
    }
    let ghost st0 = m@;
    match raw {
        RawExpr::Var { name } => {
            match op {
                None => {
                    let r = bind_next_name(
                        m,
                        scopes,
                        names_in_binding,
                        name.as_str(),
                        &loc,
                        rhs,
                        bind_type,
                    );
                    proof {
                        lemma_grows_transitive(old(m)@, st0, m@);
                    }
                    r
                },
                Some(o) => {
                    let underscore = String::from_str("_");
                    if *name == underscore {
                        return Ok(());
                    }
                    let cur = match scopes.get(m, name) {
                        Some(v) => v,
                        None => {
                            return fail_at(Error::Undefined { name: name.clone() }, loc);
                        },
                    };
                    let rv = apply_binary_operation(m, &o.0, &o.1, &cur.v, &rhs.v);
                    let ghost st1 = m@;
                    proof {
                        lemma_grows_transitive(old(m)@, st0, st1);
                    }
                    let v = in_context(rv, Context::ApplyBinOpFailed)?;
                    let r = bind_next_name(
                        m,
                        scopes,
                        names_in_binding,
                        name.as_str(),
                        &loc,
                        new_val_ref_with_no_source(v),
                        bind_type,
                    );
                    proof {
                        lemma_grows_transitive(old(m)@, st1, m@);
                    }
                    r
                },
            }
        },
        RawExpr::Index { expr, location } => {
            let ghost rhs_view = rhs@;
            let r = bind_index(context, m, scopes, expr, location, loc, rhs, op);
            proof {
                lemma_grows_transitive(old(m)@, st0, m@);
                assert((m@, bound(r, names_in_binding@)) == bind_index_spec(
                    *context.builtins,
                    st0,
                    scopes@,
                    names_view(names_in_binding@),
                    **expr,
                    **location,
                    loc,
                    rhs_view,
                    op,
                ));
            }
            r
        },
        RawExpr::RangeIndex { expr, start, end } => {
            if op.is_some() {
                return fail_at(Error::OpOnRangeIndex, loc);
            }
            let r = bind_range(context, m, scopes, expr, start, end, loc, rhs);
            proof {
                lemma_grows_transitive(old(m)@, st0, m@);
            }
            r
        },
        RawExpr::Prop { expr, name, type_prop } => {
            let ghost rhs_view = rhs@;
            let r = bind_prop(context, m, scopes, expr, name, *type_prop, loc, rhs, op);
            proof {
                lemma_grows_transitive(old(m)@, st0, m@);
                assert((m@, bound(r, names_in_binding@)) == bind_prop_spec(
                    *context.builtins,
                    st0,
                    scopes@,
                    names_view(names_in_binding@),
                    **expr,
                    name@,
                    *type_prop,
                    loc,
                    rhs_view,
                    op,
                ));
            }
            r
        },
        RawExpr::Object { props: lhs_props } => {
            if op.is_some() {
                return fail_at(Error::OpOnObjectDestructure, loc);
            }
            match rhs.v {
                Value::Object(rhs_props) => {
                    let r = bind_object(
                        context,
                        m,
                        scopes,
                        names_in_binding,
                        lhs_props,
                        &rhs_props,
                        bind_type,
                    );
                    proof {
                        lemma_grows_transitive(old(m)@, st0, m@);
                    }
                    r
                },
                value => fail_at(Error::ObjectDestructureOnNonObject { value }, loc),
            }
        },
        RawExpr::List { items: lhs_items, collect } => {
            if op.is_some() {
                return fail_at(Error::OpOnListDestructure, loc);
            }
            match rhs.v {
                Value::List(rhs_items) => {
                    let r = bind_list(
                        context,
                        m,
                        scopes,
                        names_in_binding,
                        lhs_items,
                        *collect,
                        loc,
                        &rhs_items,
                        bind_type,
                    );
                    proof {
                        lemma_grows_transitive(old(m)@, st0, m@);
                    }
                    r
                },
                value => fail_at(Error::ListDestructureOnNonList { value }, loc),
            }
        },
        RawExpr::Null => new_invalid_bind_error("`null`", loc),
        RawExpr::Bool { .. } => new_invalid_bind_error("a boolean literal", loc),
        RawExpr::Int { .. } => new_invalid_bind_error("an integer literal", loc),
        RawExpr::Str { .. } => new_invalid_bind_error("a string literal", loc),
        RawExpr::BinaryOp { .. } => new_invalid_bind_error("a binary operation", loc),
        RawExpr::Range { .. } => new_invalid_bind_error("a range operation", loc),
        RawExpr::Func { .. } => new_invalid_bind_error("an anonymous function", loc),
        RawExpr::Call { .. } => new_invalid_bind_error("a function call", loc),
    }
}

fn new_invalid_bind_error(s: &str, loc: Location) -> (r: Result<()>)
    ensures
        r matches Err(e) && e@ == crate::eval::semantics::invalid_target(s@, loc),
{
    fail_at(Error::InvalidBindTarget { descr: s.to_owned() }, loc)
}

/// Binds the name `name` to `rhs`, in a binding of its own.
pub fn bind_name<'a>(
    m: &mut Machine<'a>,
    scopes: &ScopeStack,
    name: &str,
    name_loc: &Location,
    rhs: SourcedValue,
    bind_type: BindType,
) -> (r: Result<()>)
    requires
        old(m)@.wf(),
        old(m)@.stack_ok(scopes@),
        scopes@.len() > 0,
        old(m)@.sval_ok(rhs@),
    ensures
        (final(m)@, rview(r)) == bind_name_spec(
            old(m)@,
            scopes@,
            name@,
            *name_loc,
            rhs@,
            bind_type,
        ),
        final(m)@.wf(),
        old(m)@.grows_to(final(m)@),
        old(m)@.keeps_names(final(m)@, innermost(scopes@)),
        bind_type is Assignment ==> old(m)@.keeps_names(final(m)@, None),
        r matches Err(e) ==> placed(e@),
{
    let mut names: Vec<String> = Vec::new();
    assert(names_view(names@) =~= seq![]);
    bind_next_name(m, scopes, &mut names, name, name_loc, rhs, bind_type)
}

/// Binds the name `name` to `rhs` as a part of a binding that has bound
/// `names_in_binding` so far.
pub fn bind_next_name<'a>(
    m: &mut Machine<'a>,
    scopes: &ScopeStack,
    names_in_binding: &mut Vec<String>,
    name: &str,
    name_loc: &Location,
    rhs: SourcedValue,
    bind_type: BindType,
) -> (r: Result<()>)
    requires
        old(m)@.wf(),
        old(m)@.stack_ok(scopes@),
        scopes@.len() > 0,
        old(m)@.sval_ok(rhs@),
    ensures
        (final(m)@, bound(r, final(names_in_binding)@)) == bind_next_name_spec(
            old(m)@,
            scopes@,
            names_view(old(names_in_binding)@),
            name@,
            *name_loc,
            rhs@,
            bind_type,
        ),
        final(m)@.wf(),
        old(m)@.grows_to(final(m)@),
        old(m)@.keeps_names(final(m)@, innermost(scopes@)),
        bind_type is Assignment ==> old(m)@.keeps_names(final(m)@, None),
        r matches Err(e) ==> placed(e@),
{
    let owned = name.to_owned();
    let underscore = String::from_str("_");
    if owned == underscore {
        return Ok(());
    }
    if contains_name(names_in_binding, &owned) {
        return fail_at(Error::AlreadyInBinding { name: owned }, *name_loc);
    }
    let ghost before = names_view(names_in_binding@);
    names_in_binding.push(name.to_owned());
    assert(names_view(names_in_binding@) =~= before.push(name@));
    match bind_type {
        BindType::Declaration => {
            if let Err(prev) = scopes.declare(m, name, *name_loc, rhs) {
                return fail_at(
                    Error::AlreadyInScope { name: owned, prev_line: prev.0, prev_col: prev.1 },
                    *name_loc,
                );
            }
        },
        BindType::Assignment => {
            if !scopes.assign(m, name, rhs) {
                return fail_at(Error::Undefined { name: owned }, *name_loc);
            }
        },
    }
    Ok(())
}

/// What is stored where `cur` was.
fn stored<'a>(
    m: &mut Machine<'a>,
    cur: &SourcedValue,
    rhs: SourcedValue,
    op: Option<(BinaryOp, Location)>,
    failed: Context,
) -> (r: Result<SourcedValue>)
    requires
        old(m)@.wf(),
        old(m)@.sval_ok(cur@),
        old(m)@.sval_ok(rhs@),
    ensures
        (final(m)@, rview(r)) == stored_spec(old(m)@, cur@, rhs@, op, failed),
        final(m)@.wf(),
        old(m)@.grows_to(final(m)@),
        old(m)@.keeps_names(final(m)@, None),
        r matches Ok(v) ==> final(m)@.sval_ok(v@),
        r matches Err(e) ==> placed(e@),
{
    match op {
        None => Ok(rhs),
        Some(o) => {
            let v = in_context(apply_binary_operation(m, &o.0, &o.1, &cur.v, &rhs.v), failed)?;
            Ok(new_val_ref_with_no_source(v))
        },
    }
}

/// Binds `expr[location]` to `rhs`.
pub fn bind_index<'a>(
    context: &EvaluationContext<'a>,
    m: &mut Machine<'a>,
    scopes: &ScopeStack,
    expr: &'a Expr,
    location: &'a Expr,
    loc: Location,
    rhs: SourcedValue,
    op: Option<(BinaryOp, Location)>,
) -> (r: Result<()>)
    requires
        ready(*context.builtins, old(m)@, scopes@),
        old(m)@.sval_ok(rhs@),
    ensures
        forall|names: Names|
            (final(m)@, match r {
                Ok(_) => Ok::<Names, Failure>(names),
                Err(e) => Err::<Names, Failure>(e@),
            }) == #[trigger] bind_index_spec(
                *context.builtins,
                old(m)@,
                scopes@,
                names,
                *expr,
                *location,
                loc,
                rhs@,
                op,
            ),
        ready(*context.builtins, final(m)@, scopes@),
        old(m)@.grows_to(final(m)@),
        old(m)@.keeps_names(final(m)@, None),
        r matches Err(e) ==> placed(e@),
    decreases old(m)@.fuel, 20nat, 0nat,
{
    proof {
        reveal(bind_index_spec);
        reveal(eval_expr_spec);
        reveal(eval_expr_to_index_spec);
        reveal(eval_expr_to_str_spec);
    }
    let value = in_context(eval_expr(context, m, scopes, expr), Context::EvalExprFailed)?;
    let ghost st1 = m@;
    proof {
        lemma_grows_sval_ok(old(m)@, st1, rhs@);
    }
    match value.v {
        Value::List(items) => {
            let n = in_context(
                eval_expr_to_index(context, m, scopes, location),
                Context::EvalListIndexFailed,
            )?;
            let ghost st2 = m@;
            proof {
                lemma_grows_transitive(old(m)@, st1, st2);
                lemma_grows_sval_ok(st1, st2, rhs@);
            }
            if n >= m.list_len(items) {
                return fail_at(Error::OutOfListBounds { index: n }, loc);
            }
            let cur = m.list_get(items, n);
            proof {
                assert(st2.svals_ok(st2.lists[items as int]));
            }
            let new = stored(m, &cur, rhs, op, Context::BinOpAssignListIndexFailed)?;
            let ghost st3 = m@;
            m.list_set(items, n, new);
            proof {
                lemma_grows_transitive(old(m)@, st2, st3);
                lemma_grows_transitive(old(m)@, st3, m@);
            }
            Ok(())
        },
        Value::Object(props) => {
            let name = in_context(
                eval_expr_to_str(context, m, scopes, "property", location),
                Context::EvalObjectIndexFailed,
            )?;
            let ghost st2 = m@;
            proof {
                lemma_grows_transitive(old(m)@, st1, st2);
                lemma_grows_sval_ok(st1, st2, rhs@);
            }
            let r = put_stored(
                m,
                props,
                name,
                rhs,
                op,
                loc,
                true,
                Context::BinOpAssignObjectIndexFailed,
            );
            proof {
                lemma_grows_transitive(old(m)@, st2, m@);
            }
            r
        },
        _ => fail_at(Error::ValueNotIndexAssignable, loc),
    }
}

/// What storing under `name` in object `props` does: with an operator the
/// name must be there.
pub open spec fn put_stored_spec(
    st: St,
    props: ObjectRef,
    name: Seq<char>,
    rhs: SVal,
    op: Option<(BinaryOp, Location)>,
    loc: Location,
    by_index: bool,
    failed: Context,
) -> (St, core::result::Result<(), Failure>) {
    match (op, crate::eval::state::lookup(st.objects[props as int], name)) {
        (None, _) => (st.put_prop(props as int, name, rhs), Ok(())),
        (Some(_), None) => (
            st,
            Err(
                if by_index {
                    Failure::OpOnUndefinedIndex { name }.at(loc)
                } else {
                    Failure::OpOnUndefinedProp { name }.at(loc)
                },
            ),
        ),
        (Some(_), Some(cur)) => {
            let (st1, rv) = stored_spec(st, cur, rhs, op, failed);
            match rv {
                Err(e) => (st1, Err(e)),
                Ok(new) => (st1.put_prop(props as int, name, new), Ok(())),
            }
        },
    }
}

/// Stores under `name` in object `props`.
fn put_stored<'a>(
    m: &mut Machine<'a>,
    props: ObjectRef,
    name: String,
    rhs: SourcedValue,
    op: Option<(BinaryOp, Location)>,
    loc: Location,
    by_index: bool,
    failed: Context,
) -> (r: Result<()>)
    requires
        old(m)@.wf(),
        old(m)@.sealed <= props < old(m)@.objects.len(),
        old(m)@.sval_ok(rhs@),
    ensures
        (final(m)@, rview(r)) == put_stored_spec(
            old(m)@,
            props,
            name@,
            rhs@,
            op,
            loc,
            by_index,
            failed,
        ),
        final(m)@.wf(),
        old(m)@.grows_to(final(m)@),
        old(m)@.keeps_names(final(m)@, None),
        r matches Err(e) ==> placed(e@),
{
    if op.is_none() {
        m.object_put(props, name, rhs);
        return Ok(());
    }
    let cur = match m.object_get(props, &name) {
        Some(cur) => cur,
        None => {
            if by_index {
                return fail_at(Error::OpOnUndefinedIndex { name }, loc);
            } else {
                return fail_at(Error::OpOnUndefinedProp { name }, loc);
            }
        },
    };
    proof {
        assert(m@.props_ok(m@.objects[props as int]));
        lemma_lookup_ok(m@, m@.objects[props as int], name@);
    }
    let new = stored(m, &cur, rhs, op, failed)?;
    let ghost st1 = m@;
    m.object_put(props, name, new);
    proof {
        lemma_grows_transitive(old(m)@, st1, m@);
    }
    Ok(())
}

/// Binds `expr.name` to `rhs`.
pub fn bind_prop<'a>(
    context: &EvaluationContext<'a>,
    m: &mut Machine<'a>,
    scopes: &ScopeStack,
    expr: &'a Expr,
    name: &String,
    type_prop: bool,
    loc: Location,
    rhs: SourcedValue,
    op: Option<(BinaryOp, Location)>,
) -> (r: Result<()>)
    requires
        ready(*context.builtins, old(m)@, scopes@),
        old(m)@.sval_ok(rhs@),
    ensures
        forall|names: Names|
            (final(m)@, match r {
                Ok(_) => Ok::<Names, Failure>(names),
                Err(e) => Err::<Names, Failure>(e@),
            }) == #[trigger] bind_prop_spec(
                *context.builtins,
                old(m)@,
                scopes@,
                names,
                *expr,
                name@,
                type_prop,
                loc,
                rhs@,
                op,
            ),
        ready(*context.builtins, final(m)@, scopes@),
        old(m)@.grows_to(final(m)@),
        old(m)@.keeps_names(final(m)@, None),
        r matches Err(e) ==> placed(e@),
    decreases old(m)@.fuel, 20nat, 0nat,
{
    proof {
        reveal(bind_prop_spec);
        reveal(eval_expr_spec);
    }
    if type_prop {
        return fail_at(Error::AssignToTypeProp, loc);
    }
    let value = in_context(eval_expr(context, m, scopes, expr), Context::EvalExprFailed)?;
    let ghost st1 = m@;
    proof {
        lemma_grows_sval_ok(old(m)@, st1, rhs@);
    }
    match value.v {
        Value::Object(props) => {
            let r = put_stored(
                m,
                props,
                name.clone(),
                rhs,
                op,
                loc,
                false,
                Context::BinOpAssignPropFailed,
            );
            proof {
                lemma_grows_transitive(old(m)@, st1, m@);
            }
            r
        },
        value => fail_at(Error::PropAccessOnNonObject { value }, loc),
    }
}

/// Binds `expr[start:end]` to `rhs`.
pub fn bind_range<'a>(
    context: &EvaluationContext<'a>,
    m: &mut Machine<'a>,
    scopes: &ScopeStack,
    expr: &'a Expr,
    start: &'a Option<Box<Expr>>,
    end: &'a Option<Box<Expr>>,
    loc: Location,
    rhs: SourcedValue,
) -> (r: Result<()>)
    requires
        ready(*context.builtins, old(m)@, scopes@),
        old(m)@.sval_ok(rhs@),
    ensures
        (final(m)@, rview(r)) == bind_range_spec(
            *context.builtins,
            old(m)@,
            scopes@,
            *expr,
            *start,
            *end,
            loc,
            rhs@,
        ),
        ready(*context.builtins, final(m)@, scopes@),
        old(m)@.grows_to(final(m)@),
        old(m)@.keeps_names(final(m)@, None),
        r matches Err(e) ==> placed(e@),
    decreases old(m)@.fuel, 20nat, 0nat,
{
    proof {
        reveal(bind_range_spec);
        reveal(eval_expr_spec);
        reveal(bind_range_index_spec);
    }
    let value = in_context(eval_expr(context, m, scopes, expr), Context::EvalExprFailed)?;
    let ghost st1 = m@;
    proof {
        lemma_grows_sval_ok(old(m)@, st1, rhs@);
    }
    match value.v {
        Value::List(lhs_items) => {
            match rhs.v {
                Value::List(rhs_items) => {
                    let items = m.list_range(rhs_items, 0, m.list_len(rhs_items));
                    proof {
                        let all = st1.lists[rhs_items as int];
                        assert(all.subrange(0, all.len() as int) =~= all);
                        assert(st1.svals_ok(all));
                    }
                    let r = bind_range_index(
                        context,
                        m,
                        scopes,
                        &lhs_items,
                        start,
                        end,
                        &loc,
                        &items,
                    );
                    proof {
                        lemma_grows_transitive(old(m)@, st1, m@);
                    }
                    r
                },
                Value::Str(s) => {
                    let mut chars: Vec<SourcedValue> = Vec::new();
                    let mut i: usize = 0;
                    while i < s.len()
                        invariant
                            i <= s.len(),
                            chars.len() == i,
                            forall|j: int|
                                0 <= j < i ==> (#[trigger] chars[j])@ == unsourced(
                                    Val::Str(seq![s[j]]),
                                ),
                        decreases s.len() - i,
                    {
                        proof {
                            reveal(bind_range_spec);
                            reveal(eval_expr_spec);
                            reveal(bind_range_index_spec);
                        }
                        let mut c: Vec<u8> = Vec::new();
                        c.push(s[i]);
                        assert(c@ =~= seq![s[i as int]]);
                        chars.push(new_str(c));
                        i = i + 1;
                    }
                    proof {
                        assert(svals(chars@) =~= bytes_as_items(s@));
                    }
                    let r = bind_range_index(
                        context,
                        m,
                        scopes,
                        &lhs_items,
                        start,
                        end,
                        &loc,
                        &chars,
                    );
                    proof {
                        lemma_grows_transitive(old(m)@, st1, m@);
                    }
                    r
                },
                value => fail_at(Error::RangeIndexAssignOnNonIndexable { value }, loc),
            }
        },
        _ => fail_at(Error::ValueNotRangeIndexAssignable, loc),
    }
}

/// Replaces the items of list `lhs_items` between the bounds by
/// `rhs_items`.
pub fn bind_range_index<'a>(
    context: &EvaluationContext<'a>,
    m: &mut Machine<'a>,
    scopes: &ScopeStack,
    lhs_items: &ListRef,
    maybe_start: &'a Option<Box<Expr>>,
    maybe_end: &'a Option<Box<Expr>>,
    lhs_loc: &Location,
    rhs_items: &Vec<SourcedValue>,
) -> (r: Result<()>)
    requires
        ready(*context.builtins, old(m)@, scopes@),
        *lhs_items < old(m)@.lists.len(),
        old(m)@.svals_ok(svals(rhs_items@)),
    ensures
        (final(m)@, rview(r)) == bind_range_index_spec(
            *context.builtins,
            old(m)@,
            scopes@,
            *lhs_items,
            *maybe_start,
            *maybe_end,
            *lhs_loc,
            svals(rhs_items@),
        ),
        ready(*context.builtins, final(m)@, scopes@),
        old(m)@.grows_to(final(m)@),
        old(m)@.keeps_names(final(m)@, None),
        r matches Err(e) ==> placed(e@),
    decreases old(m)@.fuel, 4nat, 0nat,
{
    proof {
        reveal(bind_range_index_spec);
        reveal(eval_bound_spec);
    }
    let start = match eval_bound(context, m, scopes, maybe_start, Context::EvalStartIndexFailed)? {
        Some(n) => n,
        None => 0,
    };
    let ghost st1 = m@;
    let rhs_len = rhs_items.len();
    let end = match eval_bound(context, m, scopes, maybe_end, Context::EvalEndIndexFailed)? {
        Some(n) => n,
        None => rhs_len,
    };
    let ghost st2 = m@;
    let ghost items = svals(rhs_items@);
    proof {
        lemma_grows_transitive(old(m)@, st1, st2);
        lemma_grows_svals_ok(old(m)@, st1, items);
        lemma_grows_svals_ok(st1, st2, items);
    }
    let list_len = m.list_len(*lhs_items);
    if start > list_len {
        return fail_at(Error::RangeStartOutOfListBounds { start, list_len }, *lhs_loc);
    } else if start >= end {
        return fail_at(Error::RangeStartNotBeforeEnd { start, end }, *lhs_loc);
    } else if end > list_len {
        return fail_at(Error::RangeEndOutOfListBounds { end, list_len }, *lhs_loc);
    }
    let range_len = end - start;
    if range_len != rhs_len {
        return fail_at(Error::RangeIndexItemMismatch { range_len, rhs_len }, *lhs_loc);
    }
    let mut i: usize = 0;
    while i < rhs_len
        invariant
            i <= rhs_len,
            rhs_len == rhs_items.len(),
            items == svals(rhs_items@),
            start + rhs_len <= list_len,
            *lhs_items < m@.lists.len(),
            list_len == m@.lists[*lhs_items as int].len(),
            ready(*context.builtins, m@, scopes@),
            st2.grows_to(m@),
            st2.keeps_names(m@, None),
            m@.svals_ok(items),
            overwrite_spec(st2, *lhs_items, start as int, items, 0) == overwrite_spec(
                m@,
                *lhs_items,
                start as int,
                items,
                i as int,
            ),
        decreases rhs_len - i,
    {
        proof {
            reveal(bind_range_index_spec);
            reveal(eval_bound_spec);
        }
        let ghost before = m@;
        proof {
            assert(m@.sval_ok(items[i as int]));
        }
        m.list_set(*lhs_items, start + i, rhs_items[i].clone());
        proof {
            lemma_grows_transitive(st2, before, m@);
            lemma_grows_svals_ok(before, m@, items);
        }
        i = i + 1;
    }
    proof {
        lemma_grows_transitive(old(m)@, st2, m@);
    }
    Ok(())
}

/// The keys of object `r`, in their order.
fn object_keys<'a>(m: &Machine<'a>, r: ObjectRef) -> (keys: Vec<String>)
    requires
        r < m@.objects.len(),
    ensures
        names_view(keys@) == keys_of(m@.objects[r as int]),
{
    let n = m.object_len(r);
    let mut keys: Vec<String> = Vec::new();
    let mut i: usize = 0;
    while i < n
        invariant
            i <= n,
            r < m@.objects.len(),
            n == m@.objects[r as int].len(),
            keys.len() == i,
            forall|j: int| 0 <= j < i ==> (#[trigger] keys[j])@ == m@.objects[r as int][j].0,
        decreases n - i,
    {
        keys.push(m.object_key(r, i));
        i = i + 1;
    }
    assert(names_view(keys@) =~= keys_of(m@.objects[r as int]));
    keys
}

/// The properties of object `r` whose key is one of `initial` and none of
/// `consumed`.
fn object_rest<'a>(m: &Machine<'a>, r: ObjectRef, initial: &Vec<String>, consumed: &Vec<String>) -> (rest:
    Object)
    requires
        m@.wf(),
        r < m@.objects.len(),
    ensures
        props(rest@) == rest_of(
            m@.objects[r as int],
            names_view(initial@),
            names_view(consumed@),
            0,
        ),
        sorted(props(rest@)),
        m@.props_ok(props(rest@)),
{
    let n = m.object_len(r);
    let ghost es = m@.objects[r as int];
    let ghost ini = names_view(initial@);
    let ghost con = names_view(consumed@);
    let mut rest: Object = Vec::new();
    let ghost mut from: Seq<int> = seq![];
    let mut i: usize = 0;
    assert(props(rest@) =~= seq![]);
    while i < n
        invariant
            i <= n,
            r < m@.objects.len(),
            es == m@.objects[r as int],
            n == es.len(),
            sorted(es),
            m@.props_ok(es),
            ini == names_view(initial@),
            con == names_view(consumed@),
            from.len() == rest.len(),
            forall|k: int| 0 <= k < from.len() ==> 0 <= #[trigger] from[k] < i && props(rest@)[k] == es[from[k]],
            forall|k1: int, k2: int| 0 <= k1 < k2 < from.len() ==> from[k1] < from[k2],
            rest_of(es, ini, con, 0) == props(rest@) + rest_of(es, ini, con, i as int),
        decreases n - i,
    {
        let key = m.object_key(r, i);
        if contains_name(initial, &key) && !contains_name(consumed, &key) {
            let ghost before = props(rest@);
            rest.push((key, m.object_value(r, i)));
            proof {
                from = from.push(i as int);
                assert(props(rest@) =~= before.push(es[i as int]));
                assert(before + (seq![es[i as int]] + rest_of(es, ini, con, i + 1)) =~= props(rest@)
                    + rest_of(es, ini, con, i + 1));
                assert forall|k: int| 0 <= k < from.len() implies 0 <= #[trigger] from[k] < i + 1
                    && props(rest@)[k] == es[from[k]] by {
                    if k < before.len() {
                        assert(props(rest@)[k] == before[k]);
                    }
                }
            }
        }
        i = i + 1;
    }
    proof {
        assert(props(rest@) + rest_of(es, ini, con, n as int) =~= props(rest@));
        let out = props(rest@);
        assert forall|k1: int, k2: int| 0 <= k1 < k2 < out.len() implies crate::eval::order::key_lt(
            (#[trigger] out[k1]).0,
            (#[trigger] out[k2]).0,
        ) by {
            assert(out[k1] == es[from[k1]] && out[k2] == es[from[k2]]);
            assert(from[k1] < from[k2]);
        }
        assert forall|k: int| 0 <= k < out.len() implies m@.sval_ok((#[trigger] out[k]).1) by {
            assert(out[k] == es[from[k]]);
            assert(m@.sval_ok(es[from[k]].1));
        }
    }
    rest
}

/// Binds the object pattern `lhs` to the properties of object `rhs`.
pub fn bind_object<'a>(
    context: &EvaluationContext<'a>,
    m: &mut Machine<'a>,
    scopes: &ScopeStack,
    names_in_binding: &mut Vec<String>,
    lhs: &'a Vec<PropItem>,
    rhs: &ObjectRef,
    bind_type: BindType,
) -> (r: Result<()>)
    requires
        ready(*context.builtins, old(m)@, scopes@),
        *rhs < old(m)@.objects.len(),
    ensures
        (final(m)@, bound(r, final(names_in_binding)@)) == bind_object_spec(
            *context.builtins,
            old(m)@,
            scopes@,
            names_view(old(names_in_binding)@),
            lhs@,
            *rhs,
            keys_of(old(m)@.objects[*rhs as int]),
            seq![],
            0,
            bind_type,
        ),
        ready(*context.builtins, final(m)@, scopes@),
        old(m)@.grows_to(final(m)@),
        old(m)@.keeps_names(final(m)@, innermost(scopes@)),
        bind_type is Assignment ==> old(m)@.keeps_names(final(m)@, None),
        r matches Err(e) ==> placed(e@),
    decreases old(m)@.fuel, 4nat, 0nat,
{
    proof {
        reveal(bind_object_spec);
        reveal(bind_object_prop_spec);
        reveal(eval_expr_to_str_spec);
    }
    let initial = object_keys(m, *rhs);
    let mut consumed: Vec<String> = Vec::new();
    let ghost ini = names_view(initial@);
    let ghost first_names = names_view(names_in_binding@);
    assert(names_view(consumed@) =~= seq![]);
    let mut i: usize = 0;
    while i < lhs.len()
        invariant
            i <= lhs.len(),
            ini == names_view(initial@),
            ini == keys_of(old(m)@.objects[*rhs as int]),
            first_names == names_view(old(names_in_binding)@),
            *rhs < m@.objects.len(),
            ready(*context.builtins, m@, scopes@),
            old(m)@.grows_to(m@),
            old(m)@.keeps_names(m@, innermost(scopes@)),
            bind_type is Assignment ==> old(m)@.keeps_names(m@, None),
            bind_object_spec(
                *context.builtins,
                old(m)@,
                scopes@,
                first_names,
                lhs@,
                *rhs,
                ini,
                seq![],
                0,
                bind_type,
            ) == bind_object_spec(
                *context.builtins,
                m@,
                scopes@,
                names_view(names_in_binding@),
                lhs@,
                *rhs,
                ini,
                names_view(consumed@),
                i as int,
                bind_type,
            ),
        decreases lhs.len() - i,
    {
        proof {
            reveal(bind_object_spec);
            reveal(bind_object_prop_spec);
            reveal(eval_expr_to_str_spec);
        }
        let ghost before = m@;
        let ghost con = names_view(consumed@);
        match &lhs[i] {
            PropItem::Single { expr, is_spread, collect } => {
                if *is_spread {
                    return fail_at(Error::SpreadOnObjectDestructure, expr.1);
                }
                let prop_name = if let RawExpr::Var { name } = &expr.0 {
                    name.clone()
                } else {
                    return fail_at(Error::ObjectPropShorthandNotVar, expr.1);
                };
                if *collect {
                    if i != lhs.len() - 1 {
                        return fail_at(Error::ObjectCollectIsNotLast, expr.1);
                    }
                    let new_rhs = object_rest(m, *rhs, &initial, &consumed);
                    let v = new_object(m, new_rhs);
                    let ghost st1 = m@;
                    let r = bind_next_name(
                        m,
                        scopes,
                        names_in_binding,
                        prop_name.as_str(),
                        &expr.1,
                        v,
                        bind_type,
                    );
                    proof {
                        lemma_grows_transitive(before, st1, m@);
                        lemma_grows_transitive(old(m)@, before, m@);
                    }
                    return in_context(r, Context::BindObjectCollectFailed);
                }
                let r = bind_object_prop(
                    context,
                    m,
                    scopes,
                    names_in_binding,
                    &expr.0,
                    expr.1,
                    rhs,
                    prop_name.as_str(),
                    &expr.1,
                    bind_type,
                );
                proof {
                    lemma_grows_transitive(old(m)@, before, m@);
                }
                in_context(r, Context::BindObjectSingleFailed)?;
                consumed.push(prop_name);
                assert(names_view(consumed@) =~= con.push(prop_name@));
            },
            PropItem::Pair { name, value: new_lhs } => {
                let prop_name = in_context(
                    eval_expr_to_str(context, m, scopes, "property", name),
                    Context::EvalObjectIndexFailed,
                )?;
                let ghost st1 = m@;
                let r = bind_object_prop(
                    context,
                    m,
                    scopes,
                    names_in_binding,
                    &new_lhs.0,
                    new_lhs.1,
                    rhs,
                    prop_name.as_str(),
                    &name.1,
                    bind_type,
                );
                proof {
                    lemma_grows_transitive(before, st1, m@);
                    lemma_grows_transitive(old(m)@, before, m@);
                }
                in_context(r, Context::BindObjectPairFailed)?;
                consumed.push(prop_name);
                assert(names_view(consumed@) =~= con.push(prop_name@));
            },
        }
        i = i + 1;
    }
    Ok(())
}

/// Binds the pattern `lhs` to what object `rhs` holds under `prop_name`.
pub fn bind_object_prop<'a>(
    context: &EvaluationContext<'a>,
    m: &mut Machine<'a>,
    scopes: &ScopeStack,
    names_in_binding: &mut Vec<String>,
    lhs: &'a RawExpr,
    lhs_loc: Location,
    rhs: &ObjectRef,
    prop_name: &str,
    prop_loc: &Location,
    bind_type: BindType,
) -> (r: Result<()>)
    requires
        ready(*context.builtins, old(m)@, scopes@),
        *rhs < old(m)@.objects.len(),
    ensures
        (final(m)@, bound(r, final(names_in_binding)@)) == bind_object_prop_spec(
            *context.builtins,
            old(m)@,
            scopes@,
            names_view(old(names_in_binding)@),
            *lhs,
            lhs_loc,
            *rhs,
            prop_name@,
            *prop_loc,
            bind_type,
        ),
        ready(*context.builtins, final(m)@, scopes@),
        old(m)@.grows_to(final(m)@),
        old(m)@.keeps_names(final(m)@, innermost(scopes@)),
        bind_type is Assignment ==> old(m)@.keeps_names(final(m)@, None),
        r matches Err(e) ==> placed(e@),
    decreases old(m)@.fuel, 3nat, 0nat,
{
    proof {
        reveal(bind_object_prop_spec);
        reveal(bind_next_spec);
    }
    let owned = prop_name.to_owned();
    let underscore = String::from_str("_");
    if owned == underscore {
        return Ok(());
    }
    let new_rhs = match m.object_get(*rhs, &owned) {
        Some(v) => v,
        None => {
            return fail_at(Error::PropNotFound { name: owned }, *prop_loc);
        },
    };
    proof {
        assert(m@.props_ok(m@.objects[*rhs as int]));
        lemma_lookup_ok(m@, m@.objects[*rhs as int], prop_name@);
    }
    let r = bind_next(context, m, scopes, names_in_binding, lhs, lhs_loc, new_rhs, None, bind_type);
    match r {
        Ok(_) => Ok(()),
        Err(e) => Err(Error::Context { context: Context::BindNextFailed, source: Box::new(e) }),
    }
}

/// Binds the list pattern `lhs` to the items of list `rhs`.
pub fn bind_list<'a>(
    context: &EvaluationContext<'a>,
    m: &mut Machine<'a>,
    scopes: &ScopeStack,
    names_in_binding: &mut Vec<String>,
    lhs: &'a Vec<ListItem>,
    collect: bool,
    lhs_loc: Location,
    rhs: &ListRef,
    bind_type: BindType,
) -> (r: Result<()>)
    requires
        ready(*context.builtins, old(m)@, scopes@),
        *rhs < old(m)@.lists.len(),
    ensures
        (final(m)@, bound(r, final(names_in_binding)@)) == bind_list_spec(
            *context.builtins,
            old(m)@,
            scopes@,
            names_view(old(names_in_binding)@),
            lhs@,
            collect,
            lhs_loc,
            *rhs,
            bind_type,
        ),
        ready(*context.builtins, final(m)@, scopes@),
        old(m)@.grows_to(final(m)@),
        old(m)@.keeps_names(final(m)@, innermost(scopes@)),
        bind_type is Assignment ==> old(m)@.keeps_names(final(m)@, None),
        r matches Err(e) ==> placed(e@),
    decreases old(m)@.fuel, 5nat, 0nat,
{
    proof {
        reveal(bind_list_spec);
        reveal(bind_list_items_spec);
        reveal(bind_next_spec);
    }
    let lhs_len = lhs.len();
    let rhs_len = m.list_len(*rhs);
    let fixed = if lhs_len > 0 {
        lhs_len - 1
    } else {
        0
    };
    if collect {
        if fixed > rhs_len {
            return fail_at(Error::ListCollectTooFew { lhs_len, rhs_len }, lhs_loc);
        }
    } else if lhs_len != rhs_len {
        return fail_at(Error::ListDestructureItemMismatch { lhs_len, rhs_len }, lhs_loc);
    }
    let ghost first_names = names_view(names_in_binding@);
    let mut i: usize = 0;
    while i < lhs_len
        invariant
            i <= lhs_len,
            lhs_len == lhs.len(),
            first_names == names_view(old(names_in_binding)@),
            rhs_len == old(m)@.lists[*rhs as int].len(),
            *rhs < old(m)@.lists.len(),
            collect ==> lhs_len - 1 <= rhs_len,
            !collect ==> lhs_len == rhs_len,
            *rhs < m@.lists.len(),
            rhs_len == m@.lists[*rhs as int].len(),
            ready(*context.builtins, m@, scopes@),
            old(m)@.grows_to(m@),
            old(m)@.keeps_names(m@, innermost(scopes@)),
            bind_type is Assignment ==> old(m)@.keeps_names(m@, None),
            bind_list_items_spec(
                *context.builtins,
                old(m)@,
                scopes@,
                first_names,
                lhs@,
                collect,
                lhs_loc,
                *rhs,
                0,
                bind_type,
            ) == bind_list_items_spec(
                *context.builtins,
                m@,
                scopes@,
                names_view(names_in_binding@),
                lhs@,
                collect,
                lhs_loc,
                *rhs,
                i as int,
                bind_type,
            ),
        decreases lhs_len - i,
    {
        proof {
            reveal(bind_list_spec);
            reveal(bind_list_items_spec);
            reveal(bind_next_spec);
        }
        let ghost before = m@;
        let item = &lhs[i];
        if item.is_spread {
            return fail_at(Error::SpreadInListDestructure { index: i }, lhs_loc);
        }
        proof {
            assert(before.svals_ok(before.lists[*rhs as int]));
        }
        let v = if collect && i == lhs_len - 1 {
            let tail = m.list_range(*rhs, i, rhs_len);
            proof {
                let all = before.lists[*rhs as int];
                assert forall|j: int| 0 <= j < svals(tail@).len() implies before.sval_ok(
                    #[trigger] svals(tail@)[j],
                ) by {
                    assert(svals(tail@)[j] == all[i + j]);
                }
            }
            new_list(m, tail)
        } else {
            m.list_get(*rhs, i)
        };
        let ghost st1 = m@;
        let r = bind_next(
            context,
            m,
            scopes,
            names_in_binding,
            &item.expr.0,
            item.expr.1,
            v,
            None,
            bind_type,
        );
        proof {
            lemma_grows_transitive(before, st1, m@);
            lemma_grows_transitive(old(m)@, before, m@);
        }
        match r {
            Ok(_) => {},
            Err(e) => {
                return Err(
                    Error::Context { context: Context::BindListItemFailed, source: Box::new(e) },
                );
            },
        }
        i = i + 1;
    }
    Ok(())
}

} // verus!
