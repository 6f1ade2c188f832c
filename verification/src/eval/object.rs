//! Object literals.

use vstd::prelude::*;

use crate::ast::Location;
use crate::ast::PropItem;
use crate::ast::RawExpr;
use crate::eval::EvaluationContext;
use crate::eval::error::Context;
use crate::eval::error::Error;
use crate::eval::error::Result;
use crate::eval::error::fail_at;
use crate::eval::error::in_context;
use crate::eval::error::rview;
use crate::eval::expr::eval_expr;
use crate::eval::machine::Machine;
use crate::eval::machine::props;
use crate::eval::machine::put_entry;
use crate::eval::message::placed;
use crate::eval::scope::ScopeStack;
use crate::eval::semantics::eval_expr_spec;
use crate::eval::semantics::eval_expr_to_str_spec;
use crate::eval::semantics::eval_object_spec;
use crate::eval::semantics::ready;
use crate::eval::state::lemma_grows_transitive;
use crate::eval::state::lemma_put_props_ok;
use crate::eval::state::put_all;
use crate::eval::state::sorted;
use crate::eval::typed::eval_expr_to_str;
use crate::eval::value::Object;
use crate::eval::value::SourcedValue;
use crate::eval::value::Value;
use crate::eval::value::new_object;

verus! {

/// Evaluates an object literal.
pub fn eval_object<'a>(
    context: &EvaluationContext<'a>,
    m: &mut Machine<'a>,
    scopes: &ScopeStack,
    items: &'a Vec<PropItem>,
    loc: Location,
) -> (r: Result<SourcedValue>)
    requires
        ready(*context.builtins, old(m)@, scopes@),
    ensures
        (final(m)@, rview(r)) == eval_object_spec(
            *context.builtins,
            old(m)@,
            scopes@,
            items@,
            0,
            seq![],
            loc,
        ),
        ready(*context.builtins, final(m)@, scopes@),
        old(m)@.grows_to(final(m)@),
        old(m)@.keeps_names(final(m)@, None),
        r matches Ok(v) ==> final(m)@.sval_ok(v@),
        r matches Err(e) ==> placed(e@),
    decreases old(m)@.fuel, 3nat, 0nat,
{
    proof {
        reveal(eval_object_spec);
        reveal(eval_expr_to_str_spec);
        reveal(eval_expr_spec);
    }
    let mut vals: Object = Vec::new();
    let mut i: usize = 0;
    assert(props(vals@) =~= seq![]);
    while i < items.len()
        invariant
            i <= items.len(),
            ready(*context.builtins, m@, scopes@),
            old(m)@.grows_to(m@),
            old(m)@.keeps_names(m@, None),
            sorted(props(vals@)),
            m@.props_ok(props(vals@)),
            eval_object_spec(*context.builtins, old(m)@, scopes@, items@, 0, seq![], loc)
                == eval_object_spec(
                *context.builtins,
                m@,
                scopes@,
                items@,
                i as int,
                props(vals@),
                loc,
            ),
        decreases items.len() - i,
    {
        proof {
            reveal(eval_object_spec);
            reveal(eval_expr_to_str_spec);
            reveal(eval_expr_spec);
        }
        let ghost before = m@;
        let ghost acc = props(vals@);
        match &items[i] {
            PropItem::Pair { name: name_expr, value } => {
                let name = in_context(
                    eval_expr_to_str(context, m, scopes, "property name", name_expr),
                    Context::EvalPropNameFailed,
                )?;
                let ghost st1 = m@;
                let v = match eval_expr(context, m, scopes, value) {
                    Ok(v) => v,
                    Err(e) => {
                        return Err(Error::EvalPropValueFailed { source: Box::new(e), name });
                    },
                };
                proof {
                    lemma_grows_transitive(before, st1, m@);
                    lemma_grows_transitive(old(m)@, before, m@);
                    crate::eval::state::lemma_grows_props_ok(before, m@, acc);
                    lemma_put_props_ok(m@, acc, name@, v@);
                }
                put_entry(&mut vals, name, v);
            },
            PropItem::Single { expr, is_spread, collect } => {
                if *collect {
                    return fail_at(Error::ObjectCollectOutsideDestructure, loc);
                }
                if *is_spread {
                    let value = in_context(
                        eval_expr(context, m, scopes, expr),
                        Context::EvalExprFailed,
                    )?;
                    proof {
                        lemma_grows_transitive(old(m)@, before, m@);
                        crate::eval::state::lemma_grows_props_ok(before, m@, acc);
                    }
                    match value.v {
                        Value::Object(r) => {
                            let n = m.object_len(r);
                            let ghost es = m@.objects[r as int];
                            let mut j: usize = 0;
                            while j < n
                                invariant
                                    j <= n,
                                    r < m@.objects.len(),
                                    es == m@.objects[r as int],
                                    n == es.len(),
                                    m@.props_ok(es),
                                    sorted(props(vals@)),
                                    m@.props_ok(props(vals@)),
                                    put_all(acc, es, 0) == put_all(props(vals@), es, j as int),
                                decreases n - j,
                            {
                                proof {
                                    reveal(eval_object_spec);
                                    reveal(eval_expr_to_str_spec);
                                    reveal(eval_expr_spec);
                                }
                                let key = m.object_key(r, j);
                                let v = m.object_value(r, j);
                                proof {
                                    assert(m@.sval_ok(es[j as int].1));
                                    lemma_put_props_ok(m@, props(vals@), key@, v@);
                                }
                                put_entry(&mut vals, key, v);
                                j = j + 1;
                            }
                        },
                        value => {
                            return fail_at(Error::SpreadNonObjectInObject { value }, expr.1);
                        },
                    }
                } else {
                    match &expr.0 {
                        RawExpr::Var { name } => {
                            match scopes.get(m, name) {
                                Some(v) => {
                                    proof {
                                        lemma_put_props_ok(m@, acc, name@, v@);
                                    }
                                    put_entry(&mut vals, name.clone(), v);
                                },
                                None => {
                                    return fail_at(
                                        Error::Undefined { name: name.clone() },
                                        expr.1,
                                    );
                                },
                            }
                        },
                        _ => {
                            return fail_at(Error::ObjectPropShorthandNotVar, expr.1);
                        },
                    }
                }
            },
        }
        i = i + 1;
    }
    let ghost st1 = m@;
    let v = new_object(m, vals);
    proof {
        lemma_grows_transitive(old(m)@, st1, m@);
    }
    Ok(v)
}

} // verus!
