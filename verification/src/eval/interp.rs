//! Interpolated string literals.

use vstd::prelude::*;

use crate::ast::Location;
use crate::ast::ParsedSlot;
use crate::eval::EvaluationContext;
use crate::eval::error::Context;
use crate::eval::error::Error;
use crate::eval::error::Result;
use crate::eval::error::at_loc;
use crate::eval::error::fail_at;
use crate::eval::error::rview;
use crate::eval::expr::eval_expr;
use crate::eval::machine::Machine;
use crate::eval::message::placed;
use crate::eval::scope::ScopeStack;
use crate::eval::semantics::column_add;
use crate::eval::semantics::eval_expr_spec;
use crate::eval::semantics::interpolate_string_spec;
use crate::eval::semantics::ready;
use crate::eval::state::lemma_grows_transitive;
use crate::eval::value::Value;
use crate::lexer::slot_text_range;
use crate::text::push_bytes;
use crate::text::string_from_utf8;

verus! {

/// `a + b`, or the greatest column if the sum is no column.
fn add_column(a: usize, b: usize) -> (r: usize)
    ensures
        r == column_add(a, b as int),
{
    match a.checked_add(b) {
        Some(n) => n,
        None => usize::MAX,
    }
}

/// Puts together an interpolated string: the bytes of `s` outside its
/// slots, and between them what the slots' expressions give.
pub fn interpolate_string<'a>(
    context: &EvaluationContext<'a>,
    m: &mut Machine<'a>,
    scopes: &ScopeStack,
    s: &Vec<u8>,
    interpolation_slots: &'a Vec<ParsedSlot>,
    loc: Location,
) -> (r: Result<Vec<u8>>)
    requires
        ready(*context.builtins, old(m)@, scopes@),
    ensures
        (final(m)@, rview(r)) == interpolate_string_spec(
            *context.builtins,
            old(m)@,
            scopes@,
            s@,
            interpolation_slots@,
            0,
            0,
            seq![],
            loc,
        ),
        ready(*context.builtins, final(m)@, scopes@),
        old(m)@.grows_to(final(m)@),
        old(m)@.keeps_names(final(m)@, None),
        r matches Err(e) ==> placed(e@),
    decreases old(m)@.fuel, 3nat, 0nat,
{
    proof {
        reveal(interpolate_string_spec);
        reveal(eval_expr_spec);
    }
    let mut result: Vec<u8> = Vec::new();
    let mut last_slot_end: usize = 0;
    let mut i: usize = 0;
    while i < interpolation_slots.len()
        invariant
            i <= interpolation_slots.len(),
            last_slot_end <= s.len(),
            ready(*context.builtins, m@, scopes@),
            old(m)@.grows_to(m@),
            old(m)@.keeps_names(m@, None),
            interpolate_string_spec(
                *context.builtins,
                old(m)@,
                scopes@,
                s@,
                interpolation_slots@,
                0,
                0,
                seq![],
                loc,
            ) == interpolate_string_spec(
                *context.builtins,
                m@,
                scopes@,
                s@,
                interpolation_slots@,
                i as int,
                last_slot_end as int,
                result@,
                loc,
            ),
        decreases interpolation_slots.len() - i,
    {
        proof {
            reveal(interpolate_string_spec);
            reveal(eval_expr_spec);
        }
        let slot = &interpolation_slots[i];
        let ghost before = m@;
        let ghost acc = result@;
        if !(last_slot_end <= slot.start && slot_text_range(
            slot.start,
            slot.end,
            s.len(),
        ).is_some()) {
            return fail_at(
                Error::Dev { msg: String::from_str("interpolation slot is out of place") },
                loc,
            );
        }
        let at = (loc.0, add_column(add_column(loc.1, slot.start), 4));
        match &slot.expr {
            Err(msg) => {
                return fail_at(
                    Error::InterpolateStringParseFailed { source_str: msg.clone() },
                    at,
                );
            },
            Ok(e) => {
                let v = match eval_expr(context, m, scopes, e) {
                    Ok(v) => v,
                    Err(e2) => {
                        proof {
                            lemma_grows_transitive(old(m)@, before, m@);
                        }
                        return Err(
                            at_loc(
                                Error::Context {
                                    context: Context::InterpolateStringEvalExprFailed,
                                    source: Box::new(e2),
                                },
                                at,
                            ),
                        );
                    },
                };
                proof {
                    lemma_grows_transitive(old(m)@, before, m@);
                }
                match v.v {
                    Value::Str(raw) => {
                        match string_from_utf8(raw.clone()) {
                            Ok(_) => {
                                let mut k: usize = last_slot_end;
                                while k < slot.start
                                    invariant
                                        last_slot_end <= k <= slot.start <= s.len(),
                                        result@ == acc + s@.subrange(
                                            last_slot_end as int,
                                            k as int,
                                        ),
                                    decreases slot.start - k,
                                {
                                    proof {
                                        reveal(interpolate_string_spec);
                                        reveal(eval_expr_spec);
                                    }
                                    result.push(s[k]);
                                    k = k + 1;
                                    assert(result@ =~= acc + s@.subrange(
                                        last_slot_end as int,
                                        k as int,
                                    ));
                                }
                                push_bytes(&mut result, &raw);
                            },
                            Err(reason) => {
                                return fail_at(
                                    Error::StringConstructionFailed {
                                        reason,
                                        descr: String::from_str("interpolated slot"),
                                    },
                                    at,
                                );
                            },
                        }
                    },
                    value => {
                        return fail_at(Error::InterpolatedValueNotString { value }, at);
                    },
                }
            },
        }
        last_slot_end = slot.end;
        i = i + 1;
    }
    let ghost acc = result@;
    let mut k: usize = last_slot_end;
    while k < s.len()
        invariant
            last_slot_end <= k <= s.len(),
            result@ == acc + s@.subrange(last_slot_end as int, k as int),
        decreases s.len() - k,
    {
        proof {
            reveal(interpolate_string_spec);
            reveal(eval_expr_spec);
        }
        result.push(s[k]);
        k = k + 1;
        assert(result@ =~= acc + s@.subrange(last_slot_end as int, k as int));
    }
    Ok(result)
}

} // verus!
