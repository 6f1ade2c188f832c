//! What the operators compute, and the other steps that read values without
//! walking the tree.

use vstd::prelude::*;
use vstd::utf8::encode_utf8;

use crate::ast::BinaryOp;
use crate::ast::Location;
use crate::eval::error::Error;
use crate::eval::error::Failure;
use crate::eval::error::Result;
use crate::eval::error::at_loc;
use crate::eval::error::rview;
use crate::eval::machine::Machine;
use crate::eval::message::placed;
use crate::eval::state::Entries;
use crate::eval::state::Out;
use crate::eval::state::St;
use crate::eval::state::after;
use crate::eval::state::lookup;
use crate::eval::value::ListRef;
use crate::eval::value::SVal;
use crate::eval::value::SourcedValue;
use crate::eval::value::Str;
use crate::eval::value::Val;
use crate::eval::value::Value;
use crate::eval::value::new_int;
use crate::eval::value::new_str;
use crate::eval::value::new_val_ref_with_no_source;
use crate::eval::value::ref_eq;
use crate::eval::value::svals;
use crate::eval::value::unsourced;

verus! {

/// Whether `a` and `b` are equal: `None` where they are of different types
/// or hold a function. Lists are equal if they are one list, or of one
/// length with equal items in turn; objects, if they are one object, or have
/// as many properties and the second holds an equal value under each key of
/// the first. Each comparison takes one step.
pub open spec fn eq_spec(st: St, a: Val, b: Val) -> Out<Option<bool>>
    decreases st.fuel, 0nat, 0nat,
{
    if st.fuel == 0 {
        (st, Err(Failure::StepLimitReached))
    } else {
        let st = st.tick();
        match (a, b) {
            (Val::Null, Val::Null) => (st, Ok(Some(true))),
            (Val::Bool(x), Val::Bool(y)) => (st, Ok(Some(x == y))),
            (Val::Int(x), Val::Int(y)) => (st, Ok(Some(x == y))),
            (Val::Str(x), Val::Str(y)) => (st, Ok(Some(x == y))),
            (Val::List(x), Val::List(y)) => {
                let xs = st.lists[x as int];
                let ys = st.lists[y as int];
                if x == y {
                    (st, Ok(Some(true)))
                } else if xs.len() != ys.len() {
                    (st, Ok(Some(false)))
                } else {
                    eq_items_spec(st, xs, ys, 0)
                }
            },
            (Val::Object(x), Val::Object(y)) => {
                let xs = st.objects[x as int];
                let ys = st.objects[y as int];
                if x == y {
                    (st, Ok(Some(true)))
                } else if xs.len() != ys.len() {
                    (st, Ok(Some(false)))
                } else {
                    eq_props_spec(st, xs, ys, 0)
                }
            },
            _ => (st, Ok(None)),
        }
    }
}

/// Whether the items of `xs` from `i` on equal those of `ys` at the same
/// places.
pub open spec fn eq_items_spec(st: St, xs: Seq<SVal>, ys: Seq<SVal>, i: int) -> Out<Option<bool>>
    decreases st.fuel, 1nat, xs.len() - i,
{
    if i < 0 || i >= xs.len() {
        (st, Ok(Some(true)))
    } else {
        let (st1, r) = after(st, eq_spec(st, xs[i].v, ys[i].v));
        match r {
            Ok(Some(true)) => eq_items_spec(st1, xs, ys, i + 1),
            _ => (st1, r),
        }
    }
}

/// Whether `ys` holds, under each key of `xs` from entry `i` on, a value
/// equal to the one `xs` holds.
pub open spec fn eq_props_spec(st: St, xs: Entries<SVal>, ys: Entries<SVal>, i: int) -> Out<
    Option<bool>,
>
    decreases st.fuel, 1nat, xs.len() - i,
{
    if i < 0 || i >= xs.len() {
        (st, Ok(Some(true)))
    } else {
        match lookup(ys, xs[i].0) {
            None => (st, Ok(Some(false))),
            Some(y) => {
                let (st1, r) = after(st, eq_spec(st, xs[i].1.v, y.v));
                match r {
                    Ok(Some(true)) => eq_props_spec(st1, xs, ys, i + 1),
                    _ => (st1, r),
                }
            },
        }
    }
}

/// Whether `lhs` and `rhs` are equal. `Ok(None)` says that they cannot be
/// compared.
pub fn eq<'a>(m: &mut Machine<'a>, lhs: &Value, rhs: &Value) -> (r: Result<Option<bool>>)
    requires
        old(m)@.wf(),
        old(m)@.val_ok(lhs@),
        old(m)@.val_ok(rhs@),
    ensures
        (final(m)@, rview(r)) == eq_spec(old(m)@, lhs@, rhs@),
        final(m)@ == old(m)@.with_fuel(final(m)@.fuel),
        final(m)@.fuel <= old(m)@.fuel,
        final(m)@.wf(),
        old(m)@.grows_to(final(m)@),
        old(m)@.keeps_names(final(m)@, None),
    decreases old(m)@.fuel, 0nat, 0nat,
{
    if !m.tick() {
        return Err(Error::StepLimitReached);
    }
    let ghost st = m@;
    match (lhs, rhs) {
        (Value::Null, Value::Null) => Ok(Some(true)),
        (Value::Bool(x), Value::Bool(y)) => Ok(Some(*x == *y)),
        (Value::Int(x), Value::Int(y)) => Ok(Some(*x == *y)),
        (Value::Str(x), Value::Str(y)) => Ok(Some(bytes_equal(x, y))),
        (Value::List(x), Value::List(y)) => {
            if ref_eq(x, y) {
                return Ok(Some(true));
            }
            let n = m.list_len(*x);
            if n != m.list_len(*y) {
                return Ok(Some(false));
            }
            let ghost xs = st.lists[*x as int];
            let ghost ys = st.lists[*y as int];
            let mut i: usize = 0;
            while i < n
                invariant
                    i <= n,
                    n == xs.len(),
                    n == ys.len(),
                    *x < st.lists.len(),
                    *y < st.lists.len(),
                    xs == st.lists[*x as int],
                    ys == st.lists[*y as int],
                    lhs@ == Val::List(*x),
                    rhs@ == Val::List(*y),
                    *x != *y,
                    old(m)@.fuel > 0,
                    st == old(m)@.tick(),
                    st.wf(),
                    st.fuel < old(m)@.fuel,
                    m@ == st.with_fuel(m@.fuel),
                    m@.fuel <= st.fuel,
                    m@.wf(),
                    old(m)@.keeps_names(m@, None),
                    eq_items_spec(st, xs, ys, 0) == eq_items_spec(m@, xs, ys, i as int),
                decreases n - i,
            {
                let a = m.list_get(*x, i);
                let b = m.list_get(*y, i);
                proof {
                    assert(st.svals_ok(xs) && st.svals_ok(ys));
                    assert(st.sval_ok(xs[i as int]) && st.sval_ok(ys[i as int]));
                }
                let ghost before = m@;
                match eq(m, &a.v, &b.v) {
                    Ok(Some(true)) => {},
                    other => {
                        return other;
                    },
                }
                i = i + 1;
            }
            Ok(Some(true))
        },
        (Value::Object(x), Value::Object(y)) => {
            if ref_eq(x, y) {
                return Ok(Some(true));
            }
            let n = m.object_len(*x);
            if n != m.object_len(*y) {
                return Ok(Some(false));
            }
            let ghost xs = st.objects[*x as int];
            let ghost ys = st.objects[*y as int];
            let mut i: usize = 0;
            while i < n
                invariant
                    i <= n,
                    n == xs.len(),
                    *x < st.objects.len(),
                    *y < st.objects.len(),
                    xs == st.objects[*x as int],
                    ys == st.objects[*y as int],
                    n == ys.len(),
                    lhs@ == Val::Object(*x),
                    rhs@ == Val::Object(*y),
                    *x != *y,
                    old(m)@.fuel > 0,
                    st == old(m)@.tick(),
                    st.wf(),
                    st.fuel < old(m)@.fuel,
                    m@ == st.with_fuel(m@.fuel),
                    m@.fuel <= st.fuel,
                    m@.wf(),
                    old(m)@.keeps_names(m@, None),
                    eq_props_spec(st, xs, ys, 0) == eq_props_spec(m@, xs, ys, i as int),
                decreases n - i,
            {
                let key = m.object_key(*x, i);
                let a = m.object_value(*x, i);
                let b = match m.object_get(*y, &key) {
                    Some(b) => b,
                    None => {
                        return Ok(Some(false));
                    },
                };
                proof {
                    assert(st.props_ok(xs) && st.props_ok(ys));
                    assert(st.sval_ok(xs[i as int].1));
                    crate::eval::state::lemma_lookup_ok(st, ys, key@);
                }
                match eq(m, &a.v, &b.v) {
                    Ok(Some(true)) => {},
                    other => {
                        return other;
                    },
                }
                i = i + 1;
            }
            Ok(Some(true))
        },
        _ => Ok(None),
    }
}

/// Whether two byte strings hold the same bytes.
pub fn bytes_equal(a: &Vec<u8>, b: &Vec<u8>) -> (r: bool)
    ensures
        r == (a@ == b@),
{
    if a.len() != b.len() {
        return false;
    }
    let mut i: usize = 0;
    while i < a.len()
        invariant
            i <= a.len(),
            a.len() == b.len(),
            forall|j: int| 0 <= j < i ==> a[j] == b[j],
        decreases a.len() - i,
    {
        if a[i] != b[i] {
            return false;
        }
        i = i + 1;
    }
    assert(a@ =~= b@);
    true
}

/// Whether `n` is a value of the language's integers.
pub open spec fn in_i64(n: int) -> bool {
    i64::MIN <= n <= i64::MAX
}

/// The distance of `n` from zero.
pub open spec fn magnitude(n: int) -> int {
    if n >= 0 {
        n
    } else {
        -n
    }
}

/// The quotient of `a` by `b`, rounded towards zero.
pub open spec fn quotient(a: int, b: int) -> int
    recommends
        b != 0,
{
    if (a >= 0) == (b > 0) {
        magnitude(a) / magnitude(b)
    } else {
        -(magnitude(a) / magnitude(b))
    }
}

/// What is left of `a` after taking out `b` as often as [`quotient`] says:
/// it has the sign of `a`.
pub open spec fn remainder(a: int, b: int) -> int
    recommends
        b != 0,
{
    if a >= 0 {
        a % magnitude(b)
    } else {
        -((-a) % magnitude(b))
    }
}

/// What an arithmetic operator gives on two integers, where it gives an
/// integer of the language: the sum, the difference and the product do when
/// they lie in its range; the quotient does when the divisor is not zero
/// and the quotient lies in its range; the remainder does when the divisor
/// is not zero, but for the least integer by -1.
pub open spec fn int_op(op: BinaryOp, a: i64, b: i64) -> Option<i64> {
    match op {
        BinaryOp::Sum => if in_i64(a + b) {
            Some((a + b) as i64)
        } else {
            None
        },
        BinaryOp::Sub => if in_i64(a - b) {
            Some((a - b) as i64)
        } else {
            None
        },
        BinaryOp::Mul => if in_i64(a * b) {
            Some((a * b) as i64)
        } else {
            None
        },
        BinaryOp::Div => if b != 0 && in_i64(quotient(a as int, b as int)) {
            Some(quotient(a as int, b as int) as i64)
        } else {
            None
        },
        BinaryOp::Mod => if b != 0 && !(a == i64::MIN && b == -1) {
            Some(remainder(a as int, b as int) as i64)
        } else {
            None
        },
        _ => None,
    }
}

/// What a comparison gives on two integers.
pub open spec fn int_rel(op: BinaryOp, a: i64, b: i64) -> bool {
    match op {
        BinaryOp::Gt => a > b,
        BinaryOp::Gte => a >= b,
        BinaryOp::Lt => a < b,
        _ => a <= b,
    }
}

/// Whether `a` and `b` hold the same handle, where both are lists, both
/// objects or both user functions.
pub open spec fn same_ref(a: Val, b: Val) -> Option<bool> {
    match (a, b) {
        (Val::List(x), Val::List(y)) => Some(x == y),
        (Val::Object(x), Val::Object(y)) => Some(x == y),
        (Val::Func(x), Val::Func(y)) => Some(x == y),
        _ => None,
    }
}

/// What `lhs op rhs` gives.
///
/// - `==` and `!=` compare by [`eq_spec`]; `===` and `!==` compare the
///   handles of two lists, two objects or two user functions, and anything
///   else as `==` and `!=` do.
/// - `+` adds integers, and joins two strings or two lists into a new one.
/// - `-`, `*`, `/` and `%` take integers, by [`int_op`]; where that gives
///   nothing the error is `IntOverflow`.
/// - `&&` and `||` take booleans; `<`, `<=`, `>` and `>=` take integers.
///
/// Operands of any other types are `InvalidOpTypes`. Both errors are raised
/// at `op_loc`, and so is that of a comparison for which the steps ran out.
pub open spec fn apply_binary_operation_spec(
    st: St,
    op: BinaryOp,
    op_loc: Location,
    lhs: Val,
    rhs: Val,
) -> Out<Val> {
    let invalid = Failure::InvalidOpTypes { op, lhs, rhs }.at(op_loc);
    match op {
        BinaryOp::Eq | BinaryOp::Ne | BinaryOp::RefEq | BinaryOp::RefNe => {
            let positive = op == BinaryOp::Eq || op == BinaryOp::RefEq;
            let by_ref = op == BinaryOp::RefEq || op == BinaryOp::RefNe;
            match same_ref(lhs, rhs) {
                Some(same) if by_ref => (st, Ok(Val::Bool(same == positive))),
                _ => {
                    let (st1, r) = eq_spec(st, lhs, rhs);
                    match r {
                        Err(e) => (st1, Err(e.at(op_loc))),
                        Ok(None) => (st1, Err(invalid)),
                        Ok(Some(v)) => (st1, Ok(Val::Bool(v == positive))),
                    }
                },
            }
        },
        BinaryOp::Sum => match (lhs, rhs) {
            (Val::Int(a), Val::Int(b)) => match int_op(op, a, b) {
                Some(v) => (st, Ok(Val::Int(v))),
                None => (st, Err(Failure::IntOverflow { op, lhs: a, rhs: b }.at(op_loc))),
            },
            (Val::Str(a), Val::Str(b)) => (st, Ok(Val::Str(a + b))),
            (Val::List(a), Val::List(b)) => (
                st.with_list(st.lists[a as int] + st.lists[b as int]),
                Ok(Val::List(st.lists.len() as usize)),
            ),
            _ => (st, Err(invalid)),
        },
        BinaryOp::Sub | BinaryOp::Mul | BinaryOp::Div | BinaryOp::Mod => match (lhs, rhs) {
            (Val::Int(a), Val::Int(b)) => match int_op(op, a, b) {
                Some(v) => (st, Ok(Val::Int(v))),
                None => (st, Err(Failure::IntOverflow { op, lhs: a, rhs: b }.at(op_loc))),
            },
            _ => (st, Err(invalid)),
        },
        BinaryOp::And | BinaryOp::Or => match (lhs, rhs) {
            (Val::Bool(a), Val::Bool(b)) => (
                st,
                Ok(
                    Val::Bool(
                        if op == BinaryOp::And {
                            a && b
                        } else {
                            a || b
                        },
                    ),
                ),
            ),
            _ => (st, Err(invalid)),
        },
        BinaryOp::Gt | BinaryOp::Gte | BinaryOp::Lt | BinaryOp::Lte => match (lhs, rhs) {
            (Val::Int(a), Val::Int(b)) => (st, Ok(Val::Bool(int_rel(op, a, b)))),
            _ => (st, Err(invalid)),
        },
    }
}

/// The bytes of `a` followed by those of `b`.
pub fn concat_bytes(a: &Vec<u8>, b: &Vec<u8>) -> (r: Vec<u8>)
    ensures
        r@ == a@ + b@,
{
    let mut out = a.clone();
    let mut i: usize = 0;
    while i < b.len()
        invariant
            i <= b.len(),
            out@ == a@ + b@.take(i as int),
        decreases b.len() - i,
    {
        out.push(b[i]);
        i = i + 1;
        assert(b@.take(i as int) =~= b@.take(i - 1).push(b@[i - 1]));
        assert(out@ =~= a@ + b@.take(i as int));
    }
    assert(b@.take(i as int) =~= b@);
    out
}

fn new_invalid_op_types(op: &BinaryOp, op_loc: &Location, lhs: &Value, rhs: &Value) -> (e: Error)
    ensures
        e@ == (Failure::InvalidOpTypes { op: *op, lhs: lhs@, rhs: rhs@ }).at(*op_loc),
{
    at_loc(Error::InvalidOpTypes { op: *op, lhs: lhs.clone(), rhs: rhs.clone() }, *op_loc)
}

fn new_int_overflow(op: &BinaryOp, op_loc: &Location, lhs: i64, rhs: i64) -> (e: Error)
    ensures
        e@ == (Failure::IntOverflow { op: *op, lhs, rhs }).at(*op_loc),
{
    at_loc(Error::IntOverflow { op: *op, lhs, rhs }, *op_loc)
}

/// Applies an arithmetic operator to two integers.
fn apply_int_op(op: &BinaryOp, a: i64, b: i64) -> (r: Option<i64>)
    ensures
        r == int_op(*op, a, b),
{
    match op {
        BinaryOp::Sum => a.checked_add(b),
        BinaryOp::Sub => a.checked_sub(b),
        BinaryOp::Mul => a.checked_mul(b),
        BinaryOp::Div => {
            let r = a.checked_div(b);
            assert(r == int_op(BinaryOp::Div, a, b));
            r
        },
        BinaryOp::Mod => {
            let r = a.checked_rem(b);
            assert(r == int_op(BinaryOp::Mod, a, b));
            r
        },
        _ => None,
    }
}

pub fn apply_binary_operation<'a>(
    m: &mut Machine<'a>,
    op: &BinaryOp,
    op_loc: &Location,
    lhs: &Value,
    rhs: &Value,
) -> (r: Result<Value>)
    requires
        old(m)@.wf(),
        old(m)@.val_ok(lhs@),
        old(m)@.val_ok(rhs@),
    ensures
        (final(m)@, rview(r)) == apply_binary_operation_spec(old(m)@, *op, *op_loc, lhs@, rhs@),
        final(m)@.wf(),
        old(m)@.grows_to(final(m)@),
        old(m)@.keeps_names(final(m)@, None),
        r matches Ok(v) ==> final(m)@.val_ok(v@),
        r matches Err(e) ==> placed(e@),
{
    match op {
        BinaryOp::Eq | BinaryOp::Ne | BinaryOp::RefEq | BinaryOp::RefNe => {
            let positive = match op {
                BinaryOp::Eq | BinaryOp::RefEq => true,
                _ => false,
            };
            let by_ref = match op {
                BinaryOp::RefEq | BinaryOp::RefNe => true,
                _ => false,
            };
            if by_ref {
                match (lhs, rhs) {
                    (Value::List(x), Value::List(y)) => {
                        return Ok(Value::Bool(ref_eq(x, y) == positive));
                    },
                    (Value::Object(x), Value::Object(y)) => {
                        return Ok(Value::Bool(ref_eq(x, y) == positive));
                    },
                    (Value::Func(x), Value::Func(y)) => {
                        return Ok(Value::Bool(ref_eq(x, y) == positive));
                    },
                    _ => {},
                }
            }
            match eq(m, lhs, rhs) {
                Err(e) => Err(at_loc(e, *op_loc)),
                Ok(None) => Err(new_invalid_op_types(op, op_loc, lhs, rhs)),
                Ok(Some(v)) => Ok(Value::Bool(v == positive)),
            }
        },
        BinaryOp::Sum => match (lhs, rhs) {
            (Value::Int(a), Value::Int(b)) => match apply_int_op(op, *a, *b) {
                Some(v) => Ok(Value::Int(v)),
                None => Err(new_int_overflow(op, op_loc, *a, *b)),
            },
            (Value::Str(a), Value::Str(b)) => Ok(Value::Str(concat_bytes(a, b))),
            (Value::List(a), Value::List(b)) => {
                let mut items = m.list_range(*a, 0, m.list_len(*a));
                let mut more = m.list_range(*b, 0, m.list_len(*b));
                let ghost xs = m@.lists[*a as int];
                let ghost ys = m@.lists[*b as int];
                proof {
                    assert(xs.subrange(0, xs.len() as int) =~= xs);
                    assert(ys.subrange(0, ys.len() as int) =~= ys);
                }
                let ghost first = items@;
                let ghost second = more@;
                items.append(&mut more);
                proof {
                    assert(svals(items@) =~= xs + ys);
                    assert(m@.svals_ok(xs) && m@.svals_ok(ys));
                }
                Ok(Value::List(m.alloc_list(items)))
            },
            _ => Err(new_invalid_op_types(op, op_loc, lhs, rhs)),
        },
        BinaryOp::Sub | BinaryOp::Mul | BinaryOp::Div | BinaryOp::Mod => match (lhs, rhs) {
            (Value::Int(a), Value::Int(b)) => match apply_int_op(op, *a, *b) {
                Some(v) => Ok(Value::Int(v)),
                None => Err(new_int_overflow(op, op_loc, *a, *b)),
            },
            _ => Err(new_invalid_op_types(op, op_loc, lhs, rhs)),
        },
        BinaryOp::And | BinaryOp::Or => match (lhs, rhs) {
            (Value::Bool(a), Value::Bool(b)) => {
                let v = match op {
                    BinaryOp::And => *a && *b,
                    _ => *a || *b,
                };
                Ok(Value::Bool(v))
            },
            _ => Err(new_invalid_op_types(op, op_loc, lhs, rhs)),
        },
        BinaryOp::Gt | BinaryOp::Gte | BinaryOp::Lt | BinaryOp::Lte => match (lhs, rhs) {
            (Value::Int(a), Value::Int(b)) => {
                let v = match op {
                    BinaryOp::Gt => *a > *b,
                    BinaryOp::Gte => *a >= *b,
                    BinaryOp::Lt => *a < *b,
                    _ => *a <= *b,
                };
                Ok(Value::Bool(v))
            },
            _ => Err(new_invalid_op_types(op, op_loc, lhs, rhs)),
        },
    }
}

/// The views of a sequence of pairs of values.
pub open spec fn pair_views(ps: Seq<(SourcedValue, SourcedValue)>) -> Seq<(SVal, SVal)> {
    Seq::new(ps.len(), |i: int| (ps[i].0@, ps[i].1@))
}

/// The pairs that a `for` loop over `v` visits, in the order of the visit:
/// each byte of a string with its place, each item of a list with its
/// place, each value of an object with its key, in the order of the keys.
/// Nothing else can be looped over.
pub open spec fn value_to_pairs_spec(st: St, v: Val) -> core::result::Result<
    Seq<(SVal, SVal)>,
    Failure,
> {
    match v {
        Val::Str(s) => if s.len() > i64::MAX {
            Err(Failure::CastFailed)
        } else {
            Ok(
                Seq::new(
                    s.len(),
                    |i: int| (unsourced(Val::Int(i as i64)), unsourced(Val::Str(seq![s[i]]))),
                ),
            )
        },
        Val::List(r) => {
            let items = st.lists[r as int];
            if items.len() > i64::MAX {
                Err(Failure::CastFailed)
            } else {
                Ok(Seq::new(items.len(), |i: int| (unsourced(Val::Int(i as i64)), items[i])))
            }
        },
        Val::Object(r) => {
            let es = st.objects[r as int];
            Ok(Seq::new(es.len(), |i: int| (unsourced(Val::Str(encode_utf8(es[i].0))), es[i].1)))
        },
        _ => Err(Failure::ForIterNotIterable),
    }
}

pub fn value_to_pairs<'a>(m: &Machine<'a>, v: &Value) -> (r: Result<
    Vec<(SourcedValue, SourcedValue)>,
>)
    requires
        m@.wf(),
        m@.val_ok(v@),
    ensures
        match r {
            Ok(ps) => value_to_pairs_spec(m@, v@) == Ok::<Seq<(SVal, SVal)>, Failure>(
                pair_views(ps@),
            ),
            Err(e) => value_to_pairs_spec(m@, v@) == Err::<Seq<(SVal, SVal)>, Failure>(e@),
        },
        r matches Ok(ps) ==> forall|i: int|
            0 <= i < ps.len() ==> m@.sval_ok((#[trigger] ps[i]).0@) && m@.sval_ok(ps[i].1@),
{
    let mut pairs: Vec<(SourcedValue, SourcedValue)> = Vec::new();
    match v {
        Value::Str(s) => {
            if s.len() as u64 > i64::MAX as u64 {
                return Err(Error::CastFailed);
            }
            let mut i: usize = 0;
            while i < s.len()
                invariant
                    i <= s.len(),
                    s.len() <= i64::MAX,
                    pairs.len() == i,
                    forall|j: int|
                        0 <= j < i ==> (#[trigger] pairs[j]).0@ == unsourced(Val::Int(j as i64))
                            && pairs[j].1@ == unsourced(Val::Str(seq![s[j]])),
                decreases s.len() - i,
            {
                let mut c: Vec<u8> = Vec::new();
                c.push(s[i]);
                assert(c@ =~= seq![s[i as int]]);
                pairs.push((new_int(i as i64), new_str(c)));
                i = i + 1;
            }
            proof {
                assert(pair_views(pairs@) =~= value_to_pairs_spec(m@, v@)->Ok_0);
            }
            Ok(pairs)
        },
        Value::List(r) => {
            let n = m.list_len(*r);
            if n as u64 > i64::MAX as u64 {
                return Err(Error::CastFailed);
            }
            let ghost items = m@.lists[*r as int];
            let mut i: usize = 0;
            while i < n
                invariant
                    i <= n,
                    n <= i64::MAX,
                    *r < m@.lists.len(),
                    items == m@.lists[*r as int],
                    n == items.len(),
                    m@.svals_ok(items),
                    pairs.len() == i,
                    forall|j: int|
                        0 <= j < i ==> (#[trigger] pairs[j]).0@ == unsourced(Val::Int(j as i64))
                            && pairs[j].1@ == items[j],
                decreases n - i,
            {
                pairs.push((new_int(i as i64), m.list_get(*r, i)));
                i = i + 1;
            }
            proof {
                assert(pair_views(pairs@) =~= value_to_pairs_spec(m@, v@)->Ok_0);
            }
            Ok(pairs)
        },
        Value::Object(r) => {
            let n = m.object_len(*r);
            let ghost es = m@.objects[*r as int];
            let mut i: usize = 0;
            while i < n
                invariant
                    i <= n,
                    *r < m@.objects.len(),
                    es == m@.objects[*r as int],
                    n == es.len(),
                    m@.props_ok(es),
                    pairs.len() == i,
                    forall|j: int|
                        0 <= j < i ==> (#[trigger] pairs[j]).0@ == unsourced(
                            Val::Str(encode_utf8(es[j].0)),
                        ) && pairs[j].1@ == es[j].1,
                decreases n - i,
            {
                let key = m.object_key(*r, i);
                pairs.push((crate::eval::value::new_str_from_string(key), m.object_value(*r, i)));
                i = i + 1;
            }
            proof {
                assert(pair_views(pairs@) =~= value_to_pairs_spec(m@, v@)->Ok_0);
            }
            Ok(pairs)
        },
        _ => Err(Error::ForIterNotIterable),
    }
}

/// The bytes of `s` from `start`, or from its beginning, up to `end`, or to
/// its end, as a string; `RangeOutOfStringBounds` if they are not a part of
/// `s`.
pub open spec fn get_str_range_index_spec(
    s: Seq<u8>,
    maybe_start: Option<usize>,
    maybe_end: Option<usize>,
) -> core::result::Result<SVal, Failure> {
    let start = match maybe_start {
        Some(n) => n,
        None => 0,
    };
    let end = match maybe_end {
        Some(n) => n,
        None => s.len() as usize,
    };
    if start <= end <= s.len() {
        Ok(unsourced(Val::Str(s.subrange(start as int, end as int))))
    } else {
        Err(Failure::RangeOutOfStringBounds { start, end })
    }
}

pub fn get_str_range_index(s: &Str, maybe_start: Option<usize>, maybe_end: Option<usize>) -> (r:
    Result<SourcedValue>)
    ensures
        rview(r) == get_str_range_index_spec(s@, maybe_start, maybe_end),
{
    let start = match maybe_start {
        Some(n) => n,
        None => 0,
    };
    let end = match maybe_end {
        Some(n) => n,
        None => s.len(),
    };
    if start <= end && end <= s.len() {
        let mut out: Vec<u8> = Vec::new();
        let mut i: usize = start;
        while i < end
            invariant
                start <= i <= end <= s.len(),
                out@ == s@.subrange(start as int, i as int),
            decreases end - i,
        {
            out.push(s[i]);
            i = i + 1;
            assert(out@ =~= s@.subrange(start as int, i as int));
        }
        Ok(new_str(out))
    } else {
        Err(Error::RangeOutOfStringBounds { start, end })
    }
}

/// A new list of the items of list `r` from `start`, or from its beginning,
/// up to `end`, or to its end; `RangeOutOfListBounds` if they are not a part
/// of the list.
pub open spec fn get_list_range_index_spec(
    st: St,
    r: ListRef,
    maybe_start: Option<usize>,
    maybe_end: Option<usize>,
) -> Out<SVal> {
    let items = st.lists[r as int];
    let start = match maybe_start {
        Some(n) => n,
        None => 0,
    };
    let end = match maybe_end {
        Some(n) => n,
        None => items.len() as usize,
    };
    if start <= end <= items.len() {
        (
            st.with_list(items.subrange(start as int, end as int)),
            Ok(unsourced(Val::List(st.lists.len() as usize))),
        )
    } else {
        (st, Err(Failure::RangeOutOfListBounds { start, end }))
    }
}

pub fn get_list_range_index<'a>(
    m: &mut Machine<'a>,
    list: &ListRef,
    maybe_start: Option<usize>,
    maybe_end: Option<usize>,
) -> (r: Result<SourcedValue>)
    requires
        old(m)@.wf(),
        *list < old(m)@.lists.len(),
    ensures
        (final(m)@, rview(r)) == get_list_range_index_spec(old(m)@, *list, maybe_start, maybe_end),
        final(m)@.wf(),
        old(m)@.grows_to(final(m)@),
        old(m)@.keeps_names(final(m)@, None),
        r matches Ok(v) ==> final(m)@.sval_ok(v@),
{
    let start = match maybe_start {
        Some(n) => n,
        None => 0,
    };
    let end = match maybe_end {
        Some(n) => n,
        None => m.list_len(*list),
    };
    if start <= end && end <= m.list_len(*list) {
        let items = m.list_range(*list, start, end);
        proof {
            let all = m@.lists[*list as int];
            assert(m@.svals_ok(all));
            assert forall|i: int| 0 <= i < svals(items@).len() implies m@.sval_ok(
                #[trigger] svals(items@)[i],
            ) by {
                assert(svals(items@)[i] == all[start + i]);
            }
        }
        let r = m.alloc_list(items);
        Ok(new_val_ref_with_no_source(Value::List(r)))
    } else {
        Err(Error::RangeOutOfListBounds { start, end })
    }
}

} // verus!
